//! The declaration model.
//!
//! One binding declaration is validated in a fixed order, producing the
//! first applicable error: disallowed modifiers first (const, async, an
//! explicit unsafe marker, a custom ABI, variadic arguments, generics), then
//! the single required annotation carrying the message name and the per-OS
//! minimum versions, then the arity check against the message name, then the
//! parameter shapes, and finally the pointer constraint on the receiver.

use vstd::prelude::*;
use crate::availability::{spec_parse_os, OS, OSVersions};
use crate::bytesplit::copy_bytes;
use crate::selector::{spec_arg_count, spec_parse_meth_name, ObjCMethName, ObjCMethNameV};
use crate::version::{spec_parse_version, Version};

verus! {

// ----- inputs -----

/// The literal value of a `name = value` meta item: a string literal, or
/// some other literal kind.
pub enum MetaValue {
    Str(Vec<u8>),
    OtherLit,
}

pub enum MetaValueV {
    Str(Seq<u8>),
    OtherLit,
}

impl DeepView for MetaValue {
    type V = MetaValueV;

    open spec fn deep_view(&self) -> MetaValueV {
        match self {
            MetaValue::Str(s) => MetaValueV::Str(s@),
            MetaValue::OtherLit => MetaValueV::OtherLit,
        }
    }
}

/// One nested meta item of an annotation: `name = value`, or some other
/// shape (a bare path, a nested list, a bare literal).
pub enum MetaItem {
    NameValue { name: Vec<u8>, value: MetaValue },
    Other,
}

pub enum MetaItemV {
    NameValue { name: Seq<u8>, value: MetaValueV },
    Other,
}

impl DeepView for MetaItem {
    type V = MetaItemV;

    open spec fn deep_view(&self) -> MetaItemV {
        match self {
            MetaItem::NameValue { name, value } => MetaItemV::NameValue {
                name: name@,
                value: value.deep_view(),
            },
            MetaItem::Other => MetaItemV::Other,
        }
    }
}

/// The shape of one attribute on a declaration: a list of nested meta
/// items, a non-list meta, or an inner-style attribute.
pub enum AttrShape {
    List(Vec<MetaItem>),
    NotList,
    Inner,
}

pub enum AttrShapeV {
    List(Seq<MetaItemV>),
    NotList,
    Inner,
}

impl DeepView for AttrShape {
    type V = AttrShapeV;

    open spec fn deep_view(&self) -> AttrShapeV {
        match self {
            AttrShape::List(items) => AttrShapeV::List(items.deep_view()),
            AttrShape::NotList => AttrShapeV::NotList,
            AttrShape::Inner => AttrShapeV::Inner,
        }
    }
}

/// One attribute on a declaration: whether its path is the binding
/// annotation's name, and its shape.
pub struct AttrInput {
    pub is_objc: bool,
    pub shape: AttrShape,
}

pub struct AttrInputV {
    pub is_objc: bool,
    pub shape: AttrShapeV,
}

impl DeepView for AttrInput {
    type V = AttrInputV;

    open spec fn deep_view(&self) -> AttrInputV {
        AttrInputV { is_objc: self.is_objc, shape: self.shape.deep_view() }
    }
}

/// The binding pattern of one parameter: a plain name, or a destructuring
/// pattern.
pub enum ParamPat {
    Named(Vec<u8>),
    Destructured,
}

pub enum ParamPatV {
    Named(Seq<u8>),
    Destructured,
}

impl DeepView for ParamPat {
    type V = ParamPatV;

    open spec fn deep_view(&self) -> ParamPatV {
        match self {
            ParamPat::Named(n) => ParamPatV::Named(n@),
            ParamPat::Destructured => ParamPatV::Destructured,
        }
    }
}

/// One declared parameter: an implicit `self`-style receiver, or a typed
/// parameter with its pattern and whether its type is a raw pointer.
pub enum ParamInput {
    Receiver,
    Typed { pat: ParamPat, is_pointer: bool },
}

pub enum ParamInputV {
    Receiver,
    Typed { pat: ParamPatV, is_pointer: bool },
}

impl DeepView for ParamInput {
    type V = ParamInputV;

    open spec fn deep_view(&self) -> ParamInputV {
        match self {
            ParamInput::Receiver => ParamInputV::Receiver,
            ParamInput::Typed { pat, is_pointer } => ParamInputV::Typed {
                pat: pat.deep_view(),
                is_pointer: *is_pointer,
            },
        }
    }
}

/// One raw function-like declaration, reduced to what validation reads.
pub struct DeclInput {
    pub ident: Vec<u8>,
    pub is_const: bool,
    pub is_async: bool,
    pub is_unsafe: bool,
    pub has_abi: bool,
    pub is_variadic: bool,
    pub has_generics: bool,
    pub attrs: Vec<AttrInput>,
    pub params: Vec<ParamInput>,
}

pub struct DeclInputV {
    pub ident: Seq<u8>,
    pub is_const: bool,
    pub is_async: bool,
    pub is_unsafe: bool,
    pub has_abi: bool,
    pub is_variadic: bool,
    pub has_generics: bool,
    pub attrs: Seq<AttrInputV>,
    pub params: Seq<ParamInputV>,
}

impl DeepView for DeclInput {
    type V = DeclInputV;

    open spec fn deep_view(&self) -> DeclInputV {
        DeclInputV {
            ident: self.ident@,
            is_const: self.is_const,
            is_async: self.is_async,
            is_unsafe: self.is_unsafe,
            has_abi: self.has_abi,
            is_variadic: self.is_variadic,
            has_generics: self.has_generics,
            attrs: self.attrs.deep_view(),
            params: self.params.deep_view(),
        }
    }
}

// ----- errors -----

/// A validation error; each declaration reports the first applicable one.
#[derive(Copy, Clone, Debug, PartialEq, Eq, Structural)]
pub enum DeclError {
    /// The declaration is marked `const`.
    ConstUnsupported,
    /// The declaration is marked `async`.
    AsyncUnsupported,
    /// The declaration carries an explicit `unsafe` marker; bindings are
    /// implicitly unsafe, so the marker is redundant and rejected.
    ImplicitlyUnsafe,
    /// The declaration names a non-default calling convention.
    CustomAbi,
    /// The declaration is variadic.
    VariadicUnsupported,
    /// The declaration has generic parameters.
    GenericsUnsupported,
    /// The annotation is inner-style or not a meta list.
    ExpectedOuterAttr,
    /// The annotation has fewer than two meta items; it must carry a
    /// selector and at least one OS entry.
    ExpectedSelectorAndVersion,
    /// The annotation's first meta item is not `selector = ...`.
    ExpectedSelector,
    /// The selector value is not a string literal.
    ExpectedMethNameLit,
    /// The selector string is not a valid message name.
    InvalidMethName,
    /// An availability entry is not of the `name = value` shape.
    ExpectedOsVersionPair,
    /// An availability entry names an unknown operating system.
    ExpectedOsName,
    /// An availability entry's value is not a string literal holding one to
    /// three dot-separated numeric components.
    InvalidVersion,
    /// Two availability entries name the same operating system.
    DuplicateOsKey(OS),
    /// No binding annotation is attached to the declaration.
    MissingObjcAttr,
    /// More than one binding annotation is attached to the declaration.
    DuplicateObjcAttr,
    /// The declared parameter count (receiver counted in) differs from the
    /// count the message name requires.
    ArityMismatch { selector_args: usize, declared_args: usize },
    /// A parameter is an implicit `self`-style receiver.
    SelfReceiverUnsupported,
    /// A parameter is bound by a destructuring pattern.
    DestructuringUnsupported,
    /// The first parameter's type is not a raw pointer.
    ReceiverNotPointer,
    /// An item of the declaration block is not a function declaration.
    ExpectedFunction,
    /// The declaration block names an ABI other than the object-messaging one.
    ExpectedObjcAbi,
    /// The framework directive's key is not `framework`.
    ExpectedFrameworkKey,
}

// ----- the parsed annotation -----

/// The parsed binding annotation: the message name and the availability
/// map.
pub struct ObjCAttr {
    pub objc_meth_name: ObjCMethName,
    pub versions: OSVersions,
}

pub struct ObjCAttrV {
    pub objc_meth_name: ObjCMethNameV,
    pub versions: OSVersions,
}

impl DeepView for ObjCAttr {
    type V = ObjCAttrV;

    open spec fn deep_view(&self) -> ObjCAttrV {
        ObjCAttrV { objc_meth_name: self.objc_meth_name@, versions: self.versions }
    }
}

// ----- spec-level parsing -----

/// The binding annotation's own name, `objc`, as bytes.
pub open spec fn spec_objc_key() -> Seq<u8> {
    seq![111u8, 98u8, 106u8, 99u8]
}

impl ObjCAttr {
    /// Is this attribute path the binding annotation's name?
    pub fn is_objc(path_ident: &[u8]) -> (r: bool)
        ensures
            r == (path_ident@ == spec_objc_key()),
    {
        if path_ident.len() == 4 && path_ident[0] == 111 && path_ident[1] == 98 && path_ident[2]
            == 106 && path_ident[3] == 99 {
            proof {
                assert(path_ident@ =~= spec_objc_key());
            }
            true
        } else {
            false
        }
    }
}

/// The annotation key `selector`, as bytes.
pub open spec fn spec_selector_key() -> Seq<u8> {
    seq![115u8, 101u8, 108u8, 101u8, 99u8, 116u8, 111u8, 114u8]
}

/// Parsing the first meta item of an annotation: `selector = "..."` with a
/// string literal holding a valid message name.
pub open spec fn spec_parse_selector_item(item: MetaItemV) -> Result<ObjCMethNameV, DeclError> {
    match item {
        MetaItemV::NameValue { name, value } => {
            if name == spec_selector_key() {
                match value {
                    MetaValueV::Str(s) => match spec_parse_meth_name(s) {
                        Some(m) => Ok(m),
                        None => Err(DeclError::InvalidMethName),
                    },
                    MetaValueV::OtherLit => Err(DeclError::ExpectedMethNameLit),
                }
            } else {
                Err(DeclError::ExpectedSelector)
            }
        },
        MetaItemV::Other => Err(DeclError::ExpectedSelector),
    }
}

/// Parsing one availability entry: `ios = "..."` or `macos = "..."` with a
/// string literal holding a version.
pub open spec fn spec_parse_os_entry(item: MetaItemV) -> Result<(OS, Version), DeclError> {
    match item {
        MetaItemV::NameValue { name, value } => match spec_parse_os(name) {
            Some(os) => match value {
                MetaValueV::Str(s) => match spec_parse_version(s) {
                    Some(v) => Ok((os, v)),
                    None => Err(DeclError::InvalidVersion),
                },
                MetaValueV::OtherLit => Err(DeclError::InvalidVersion),
            },
            None => Err(DeclError::ExpectedOsName),
        },
        MetaItemV::Other => Err(DeclError::ExpectedOsVersionPair),
    }
}

/// Parsing all availability entries, in order, stopping at the first
/// malformed one.
pub open spec fn spec_parse_os_entries(items: Seq<MetaItemV>) -> Result<
    Seq<(OS, Version)>,
    DeclError,
>
    decreases items.len(),
{
    if items.len() == 0 {
        Ok(seq![])
    } else {
        match spec_parse_os_entry(items[0]) {
            Err(e) => Err(e),
            Ok(p) => match spec_parse_os_entries(items.drop_first()) {
                Err(e) => Err(e),
                Ok(rest) => Ok(seq![p] + rest),
            },
        }
    }
}

/// The map with the entry for `os` set to `v`.
pub open spec fn spec_set(m: OSVersions, os: OS, v: Version) -> OSVersions {
    match os {
        OS::iOS => OSVersions { ios: Some(v), macos: m.macos },
        OS::macOS => OSVersions { ios: m.ios, macos: Some(v) },
    }
}

/// Folding parsed entries into the map, in order; an entry whose OS is
/// already present is a duplicate-key error.
pub open spec fn spec_insert_entries(pairs: Seq<(OS, Version)>, acc: OSVersions) -> Result<
    OSVersions,
    DeclError,
>
    decreases pairs.len(),
{
    if pairs.len() == 0 {
        Ok(acc)
    } else {
        let os = pairs[0].0;
        if acc.spec_get(os) is Some {
            Err(DeclError::DuplicateOsKey(os))
        } else {
            spec_insert_entries(pairs.drop_first(), spec_set(acc, os, pairs[0].1))
        }
    }
}

/// Parsing the availability entries of an annotation: every entry must be
/// well formed (checked first, in order), then no OS may repeat.
pub open spec fn spec_parse_versions(items: Seq<MetaItemV>) -> Result<OSVersions, DeclError> {
    match spec_parse_os_entries(items) {
        Err(e) => Err(e),
        Ok(pairs) => spec_insert_entries(pairs, OSVersions { ios: None, macos: None }),
    }
}

/// Parsing one annotation: it must be an outer meta list of at least two
/// items, the first the selector, the rest availability entries.
pub open spec fn spec_parse_objc_attr(shape: AttrShapeV) -> Result<ObjCAttrV, DeclError> {
    match shape {
        AttrShapeV::Inner => Err(DeclError::ExpectedOuterAttr),
        AttrShapeV::NotList => Err(DeclError::ExpectedOuterAttr),
        AttrShapeV::List(items) => {
            if items.len() < 2 {
                Err(DeclError::ExpectedSelectorAndVersion)
            } else {
                match spec_parse_selector_item(items[0]) {
                    Err(e) => Err(e),
                    Ok(m) => match spec_parse_versions(items.drop_first()) {
                        Err(e) => Err(e),
                        Ok(vs) => Ok(ObjCAttrV { objc_meth_name: m, versions: vs }),
                    },
                }
            }
        },
    }
}

/// Collecting the binding annotations among a declaration's attributes,
/// scanning from the last attribute towards the first and parsing each;
/// the first malformed one (in scan order) is the error.
pub open spec fn spec_collect_objc(attrs: Seq<AttrInputV>) -> Result<Seq<ObjCAttrV>, DeclError>
    decreases attrs.len(),
{
    if attrs.len() == 0 {
        Ok(seq![])
    } else {
        let rest = attrs.drop_last();
        if attrs.last().is_objc {
            match spec_parse_objc_attr(attrs.last().shape) {
                Err(e) => Err(e),
                Ok(a) => match spec_collect_objc(rest) {
                    Err(e) => Err(e),
                    Ok(r) => Ok(seq![a] + r),
                },
            }
        } else {
            spec_collect_objc(rest)
        }
    }
}

/// Checking the parameters, in order: each must be a typed parameter bound
/// to a plain name; the result is the names.
pub open spec fn spec_check_params(params: Seq<ParamInputV>) -> Result<Seq<Seq<u8>>, DeclError>
    decreases params.len(),
{
    if params.len() == 0 {
        Ok(seq![])
    } else {
        match params[0] {
            ParamInputV::Receiver => Err(DeclError::SelfReceiverUnsupported),
            ParamInputV::Typed { pat, is_pointer } => match pat {
                ParamPatV::Destructured => Err(DeclError::DestructuringUnsupported),
                ParamPatV::Named(n) => match spec_check_params(params.drop_first()) {
                    Err(e) => Err(e),
                    Ok(r) => Ok(seq![n] + r),
                },
            },
        }
    }
}

// ----- the validated declaration -----

/// A validated binding declaration: the receiver, the message arguments in
/// declared order, the message name, and the availability map.
pub struct BindingDecl {
    pub ident: Vec<u8>,
    pub receiver_name: Vec<u8>,
    pub arg_names: Vec<Vec<u8>>,
    pub objc_meth_name: ObjCMethName,
    pub versions: OSVersions,
}

pub struct BindingDeclV {
    pub ident: Seq<u8>,
    pub receiver_name: Seq<u8>,
    pub arg_names: Seq<Seq<u8>>,
    pub objc_meth_name: ObjCMethNameV,
    pub versions: OSVersions,
}

impl DeepView for BindingDecl {
    type V = BindingDeclV;

    open spec fn deep_view(&self) -> BindingDeclV {
        BindingDeclV {
            ident: self.ident@,
            receiver_name: self.receiver_name@,
            arg_names: self.arg_names.deep_view(),
            objc_meth_name: self.objc_meth_name@,
            versions: self.versions,
        }
    }
}

/// The whole validation of one declaration, producing the first applicable
/// error: modifiers, then the annotation, then arity, then parameter
/// shapes, then the pointer constraint on the receiver.
pub open spec fn spec_parse_decl(d: DeclInputV) -> Result<BindingDeclV, DeclError> {
    if d.is_const {
        Err(DeclError::ConstUnsupported)
    } else if d.is_async {
        Err(DeclError::AsyncUnsupported)
    } else if d.is_unsafe {
        Err(DeclError::ImplicitlyUnsafe)
    } else if d.has_abi {
        Err(DeclError::CustomAbi)
    } else if d.is_variadic {
        Err(DeclError::VariadicUnsupported)
    } else if d.has_generics {
        Err(DeclError::GenericsUnsupported)
    } else {
        match spec_collect_objc(d.attrs) {
            Err(e) => Err(e),
            Ok(found) => {
                if found.len() == 0 {
                    Err(DeclError::MissingObjcAttr)
                } else if found.len() > 1 {
                    Err(DeclError::DuplicateObjcAttr)
                } else {
                    let attr = found[0];
                    let sel_args = spec_arg_count(attr.objc_meth_name);
                    if sel_args != d.params.len() {
                        Err(
                            DeclError::ArityMismatch {
                                selector_args: sel_args as usize,
                                declared_args: d.params.len() as usize,
                            },
                        )
                    } else {
                        match spec_check_params(d.params) {
                            Err(e) => Err(e),
                            Ok(names) => match d.params[0] {
                                ParamInputV::Typed { pat: _, is_pointer } => {
                                    if !is_pointer {
                                        Err(DeclError::ReceiverNotPointer)
                                    } else {
                                        Ok(
                                            BindingDeclV {
                                                ident: d.ident,
                                                receiver_name: names[0],
                                                arg_names: names.drop_first(),
                                                objc_meth_name: attr.objc_meth_name,
                                                versions: attr.versions,
                                            },
                                        )
                                    }
                                },
                                ParamInputV::Receiver => Err(DeclError::SelfReceiverUnsupported),
                            },
                        }
                    }
                }
            },
        }
    }
}

/// A successful parameter check yields one name per parameter.
pub proof fn lemma_check_params_len(params: Seq<ParamInputV>)
    requires
        spec_check_params(params) is Ok,
    ensures
        (spec_check_params(params)->Ok_0).len() == params.len(),
    decreases params.len(),
{
    if params.len() > 0 {
        lemma_check_params_len(params.drop_first());
    }
}

// ----- laws of the validation order -----

/// A variadic declaration is rejected before its annotations, arity or
/// parameters are even examined: the error does not depend on them.
pub proof fn lemma_variadic_rejected_first(d: DeclInputV)
    requires
        !d.is_const,
        !d.is_async,
        !d.is_unsafe,
        !d.has_abi,
        d.is_variadic,
    ensures
        spec_parse_decl(d) == Err::<BindingDeclV, DeclError>(DeclError::VariadicUnsupported),
{
}

/// A declaration with no binding annotation fails with the
/// missing-annotation error.
pub proof fn lemma_missing_attr_rejected(d: DeclInputV)
    requires
        !d.is_const,
        !d.is_async,
        !d.is_unsafe,
        !d.has_abi,
        !d.is_variadic,
        !d.has_generics,
        spec_collect_objc(d.attrs) == Ok::<Seq<ObjCAttrV>, DeclError>(Seq::<ObjCAttrV>::empty()),
    ensures
        spec_parse_decl(d) == Err::<BindingDeclV, DeclError>(DeclError::MissingObjcAttr),
{
}

/// A declaration with two or more binding annotations fails with the
/// duplicate-annotation error.
pub proof fn lemma_duplicate_attr_rejected(d: DeclInputV)
    requires
        !d.is_const,
        !d.is_async,
        !d.is_unsafe,
        !d.has_abi,
        !d.is_variadic,
        !d.has_generics,
        spec_collect_objc(d.attrs) is Ok,
        (spec_collect_objc(d.attrs)->Ok_0).len() >= 2,
    ensures
        spec_parse_decl(d) == Err::<BindingDeclV, DeclError>(DeclError::DuplicateObjcAttr),
{
}

/// When the declared parameter count (the receiver counted in) differs
/// from the count the message name derives, validation fails with an arity
/// error naming both counts.
pub proof fn lemma_arity_mismatch_rejected(d: DeclInputV)
    requires
        !d.is_const,
        !d.is_async,
        !d.is_unsafe,
        !d.has_abi,
        !d.is_variadic,
        !d.has_generics,
        spec_collect_objc(d.attrs) is Ok,
        (spec_collect_objc(d.attrs)->Ok_0).len() == 1,
        spec_arg_count((spec_collect_objc(d.attrs)->Ok_0)[0].objc_meth_name) != d.params.len(),
    ensures
        spec_parse_decl(d) == Err::<BindingDeclV, DeclError>(
            DeclError::ArityMismatch {
                selector_args: spec_arg_count(
                    (spec_collect_objc(d.attrs)->Ok_0)[0].objc_meth_name,
                ) as usize,
                declared_args: d.params.len() as usize,
            },
        ),
{
}

/// A declaration whose first parameter is a `self`-style receiver fails
/// with the implicit-receiver error, however well formed its annotation.
pub proof fn lemma_self_receiver_rejected(d: DeclInputV)
    requires
        !d.is_const,
        !d.is_async,
        !d.is_unsafe,
        !d.has_abi,
        !d.is_variadic,
        !d.has_generics,
        spec_collect_objc(d.attrs) is Ok,
        (spec_collect_objc(d.attrs)->Ok_0).len() == 1,
        spec_arg_count((spec_collect_objc(d.attrs)->Ok_0)[0].objc_meth_name) == d.params.len(),
        d.params.len() >= 1,
        d.params[0] is Receiver,
    ensures
        spec_parse_decl(d) == Err::<BindingDeclV, DeclError>(DeclError::SelfReceiverUnsupported),
{
}

/// A successful fold of availability entries means no operating system
/// repeats among them, and none was already in the map.
pub proof fn lemma_insert_entries_distinct(pairs: Seq<(OS, Version)>, acc: OSVersions)
    requires
        spec_insert_entries(pairs, acc) is Ok,
    ensures
        forall|i: int, j: int|
            0 <= i < j < pairs.len() ==> (#[trigger] pairs[i]).0 != (#[trigger] pairs[j]).0,
        forall|k: int| 0 <= k < pairs.len() ==> acc.spec_get((#[trigger] pairs[k]).0) is None,
    decreases pairs.len(),
{
    if pairs.len() > 0 {
        let os0 = pairs[0].0;
        let acc2 = spec_set(acc, os0, pairs[0].1);
        let rest = pairs.drop_first();
        lemma_insert_entries_distinct(rest, acc2);
        assert(acc2.spec_get(os0) is Some);
        assert forall|k: int|
            0 <= k < pairs.len() implies acc.spec_get((#[trigger] pairs[k]).0) is None by {
            if k > 0 {
                assert(rest[k - 1] == pairs[k]);
                assert(acc2.spec_get(pairs[k].0) is None);
                assert(pairs[k].0 != os0);
                assert(acc.spec_get(pairs[k].0) == acc2.spec_get(pairs[k].0));
            }
        }
        assert forall|i: int, j: int|
            0 <= i < j < pairs.len() implies (#[trigger] pairs[i]).0 != (#[trigger] pairs[j]).0 by {
            if i == 0 {
                assert(rest[j - 1] == pairs[j]);
                assert(acc2.spec_get(pairs[j].0) is None);
            } else {
                assert(rest[i - 1] == pairs[i]);
                assert(rest[j - 1] == pairs[j]);
            }
        }
    }
}

/// A successful fold holds exactly the declared entries: each parsed pair
/// stands in the resulting map, and a key no pair names keeps the entry it
/// had before the fold.
pub proof fn lemma_insert_entries_exact(pairs: Seq<(OS, Version)>, acc: OSVersions)
    requires
        spec_insert_entries(pairs, acc) is Ok,
    ensures
        forall|k: int|
            0 <= k < pairs.len() ==> (spec_insert_entries(pairs, acc)->Ok_0).spec_get(
                (#[trigger] pairs[k]).0,
            ) == Some(pairs[k].1),
        forall|os: OS|
            (forall|k: int| 0 <= k < pairs.len() ==> (#[trigger] pairs[k]).0 != os) ==> (
            spec_insert_entries(pairs, acc)->Ok_0).spec_get(os) == acc.spec_get(os),
    decreases pairs.len(),
{
    if pairs.len() > 0 {
        let os0 = pairs[0].0;
        let acc2 = spec_set(acc, os0, pairs[0].1);
        let rest = pairs.drop_first();
        lemma_insert_entries_exact(rest, acc2);
        lemma_insert_entries_distinct(rest, acc2);
        let m = spec_insert_entries(pairs, acc)->Ok_0;
        assert forall|k: int|
            0 <= k < pairs.len() implies m.spec_get((#[trigger] pairs[k]).0) == Some(
            pairs[k].1,
        ) by {
            if k == 0 {
                assert forall|j: int| 0 <= j < rest.len() implies (#[trigger] rest[j]).0 != os0 by {
                    assert(acc2.spec_get(rest[j].0) is None);
                }
                assert(m.spec_get(os0) == acc2.spec_get(os0));
            } else {
                assert(rest[k - 1] == pairs[k]);
            }
        }
        assert forall|os: OS|
            (forall|k: int| 0 <= k < pairs.len() ==> (#[trigger] pairs[k]).0 != os) implies m
            .spec_get(os) == acc.spec_get(os) by {
            assert(pairs[0].0 != os);
            assert forall|j: int| 0 <= j < rest.len() implies (#[trigger] rest[j]).0 != os by {
                assert(rest[j] == pairs[j + 1]);
            }
            assert(m.spec_get(os) == acc2.spec_get(os));
        }
    }
}

/// Two availability entries naming the same operating system are rejected
/// as a duplicate key, whatever their versions.
pub proof fn lemma_duplicate_os_rejected(pairs: Seq<(OS, Version)>, acc: OSVersions, i: int, j: int)
    requires
        0 <= i < j < pairs.len(),
        pairs[i].0 == pairs[j].0,
    ensures
        spec_insert_entries(pairs, acc) is Err,
{
    if spec_insert_entries(pairs, acc) is Ok {
        lemma_insert_entries_distinct(pairs, acc);
    }
}

// ----- executable parsing -----

/// Is this byte string the annotation key `selector`?
fn is_selector_key(name: &[u8]) -> (r: bool)
    ensures
        r == (name@ == spec_selector_key()),
{
    if name.len() == 8 && name[0] == 115 && name[1] == 101 && name[2] == 108 && name[3] == 101
        && name[4] == 99 && name[5] == 116 && name[6] == 111 && name[7] == 114 {
        proof {
            assert(name@ =~= spec_selector_key());
        }
        true
    } else {
        false
    }
}

/// Parses the first meta item of an annotation: `selector = "..."`.
fn parse_selector_item(item: &MetaItem) -> (r: Result<ObjCMethName, DeclError>)
    ensures
        match r {
            Ok(m) => spec_parse_selector_item(item.deep_view()) == Ok::<
                ObjCMethNameV,
                DeclError,
            >(m@),
            Err(e) => spec_parse_selector_item(item.deep_view()) == Err::<
                ObjCMethNameV,
                DeclError,
            >(e),
        },
{
    match item {
        MetaItem::NameValue { name, value } => {
            if is_selector_key(name.as_slice()) {
                match value {
                    MetaValue::Str(s) => match ObjCMethName::parse(s.as_slice()) {
                        Some(m) => Ok(m),
                        None => Err(DeclError::InvalidMethName),
                    },
                    MetaValue::OtherLit => Err(DeclError::ExpectedMethNameLit),
                }
            } else {
                Err(DeclError::ExpectedSelector)
            }
        },
        MetaItem::Other => Err(DeclError::ExpectedSelector),
    }
}

/// Parses one availability entry: `ios = "..."` or `macos = "..."`.
fn parse_os_entry(item: &MetaItem) -> (r: Result<(OS, Version), DeclError>)
    ensures
        r == spec_parse_os_entry(item.deep_view()),
{
    match item {
        MetaItem::NameValue { name, value } => match OS::parse(name.as_slice()) {
            Some(os) => match value {
                MetaValue::Str(s) => match Version::parse(s.as_slice()) {
                    Some(v) => Ok((os, v)),
                    None => Err(DeclError::InvalidVersion),
                },
                MetaValue::OtherLit => Err(DeclError::InvalidVersion),
            },
            None => Err(DeclError::ExpectedOsName),
        },
        MetaItem::Other => Err(DeclError::ExpectedOsVersionPair),
    }
}

/// Parses the availability entries `items[start..]`: every entry must be
/// well formed, and then no OS may repeat.
fn parse_versions(items: &Vec<MetaItem>, start: usize) -> (r: Result<OSVersions, DeclError>)
    requires
        start <= items@.len(),
    ensures
        r == spec_parse_versions(items.deep_view().skip(start as int)),
{
    let ghost tail = items.deep_view().skip(start as int);
    let mut pairs: Vec<(OS, Version)> = Vec::new();
    let mut i: usize = start;
    while i < items.len()
        invariant
            start <= i <= items@.len(),
            tail == items.deep_view().skip(start as int),
            spec_parse_os_entries(tail) == (match spec_parse_os_entries(
                items.deep_view().skip(i as int),
            ) {
                Ok(rest) => Ok::<Seq<(OS, Version)>, DeclError>(pairs@ + rest),
                Err(e) => Err(e),
            }),
        decreases items@.len() - i,
    {
        let ghost suffix = items.deep_view().skip(i as int);
        proof {
            assert(suffix[0] == items.deep_view()[i as int]);
            assert(items@[i as int].deep_view() == items.deep_view()[i as int]);
            assert(suffix.drop_first() =~~= items.deep_view().skip(i as int + 1));
        }
        match parse_os_entry(&items[i]) {
            Err(e) => {
                return Err(e);
            },
            Ok(p) => {
                let ghost old_pairs = pairs@;
                pairs.push(p);
                proof {
                    if spec_parse_os_entries(items.deep_view().skip(i as int + 1)) is Ok {
                        let rest = spec_parse_os_entries(
                            items.deep_view().skip(i as int + 1),
                        )->Ok_0;
                        assert(old_pairs + (seq![p] + rest) =~= pairs@ + rest);
                    }
                }
            },
        }
        i = i + 1;
    }
    proof {
        assert(items.deep_view().skip(i as int) =~~= Seq::<MetaItemV>::empty());
        assert(pairs@ + Seq::<(OS, Version)>::empty() =~= pairs@);
    }
    let mut acc = OSVersions::new();
    proof {
        assert(acc == OSVersions { ios: None, macos: None }) by {
            assert(acc.spec_get(OS::iOS) is None);
            assert(acc.spec_get(OS::macOS) is None);
        }
        assert(pairs@.skip(0) =~= pairs@);
    }
    let mut j: usize = 0;
    while j < pairs.len()
        invariant
            j <= pairs@.len(),
            tail == items.deep_view().skip(start as int),
            spec_parse_os_entries(tail) == Ok::<Seq<(OS, Version)>, DeclError>(pairs@),
            spec_insert_entries(pairs@, OSVersions { ios: None, macos: None })
                == spec_insert_entries(pairs@.skip(j as int), acc),
        decreases pairs@.len() - j,
    {
        proof {
            assert(pairs@.skip(j as int)[0] == pairs@[j as int]);
            assert(pairs@.skip(j as int).drop_first() =~= pairs@.skip(j as int + 1));
        }
        let p = pairs[j];
        let os = p.0;
        if acc.has_entry(os) {
            proof {
                assert(pairs@.skip(j as int).len() > 0);
                assert(pairs@.skip(j as int)[0].0 == os);
                assert(spec_insert_entries(pairs@.skip(j as int), acc) == Err::<
                    OSVersions,
                    DeclError,
                >(DeclError::DuplicateOsKey(os)));
            }
            return Err(DeclError::DuplicateOsKey(os));
        }
        let ghost prev = acc;
        let _displaced = acc.insert(os, p.1);
        proof {
            assert(acc.spec_get(OS::iOS) == spec_set(prev, os, p.1).spec_get(OS::iOS));
            assert(acc.spec_get(OS::macOS) == spec_set(prev, os, p.1).spec_get(OS::macOS));
            assert(acc == spec_set(prev, os, p.1));
        }
        j = j + 1;
    }
    proof {
        assert(pairs@.skip(j as int) =~= Seq::<(OS, Version)>::empty());
    }
    Ok(acc)
}

/// Parses one annotation into its message name and availability map.
fn parse_objc_attr(a: &AttrInput) -> (r: Result<ObjCAttr, DeclError>)
    ensures
        match r {
            Ok(at) => spec_parse_objc_attr(a.deep_view().shape) == Ok::<
                ObjCAttrV,
                DeclError,
            >(at.deep_view()),
            Err(e) => spec_parse_objc_attr(a.deep_view().shape) == Err::<ObjCAttrV, DeclError>(e),
        },
{
    match &a.shape {
        AttrShape::Inner => Err(DeclError::ExpectedOuterAttr),
        AttrShape::NotList => Err(DeclError::ExpectedOuterAttr),
        AttrShape::List(items) => {
            if items.len() < 2 {
                return Err(DeclError::ExpectedSelectorAndVersion);
            }
            proof {
                assert(items@[0].deep_view() == items.deep_view()[0]);
                assert(items.deep_view().drop_first() =~~= items.deep_view().skip(1));
            }
            let m = match parse_selector_item(&items[0]) {
                Ok(m) => m,
                Err(e) => {
                    return Err(e);
                },
            };
            let vs = match parse_versions(items, 1) {
                Ok(v) => v,
                Err(e) => {
                    return Err(e);
                },
            };
            Ok(ObjCAttr { objc_meth_name: m, versions: vs })
        },
    }
}

/// Collects the binding annotations among a declaration's attributes,
/// scanning from the last towards the first, parsing each.
fn collect_objc_attrs(attrs: &Vec<AttrInput>) -> (r: Result<Vec<ObjCAttr>, DeclError>)
    ensures
        match r {
            Ok(v) => spec_collect_objc(attrs.deep_view()) == Ok::<
                Seq<ObjCAttrV>,
                DeclError,
            >(v.deep_view()),
            Err(e) => spec_collect_objc(attrs.deep_view()) == Err::<Seq<ObjCAttrV>, DeclError>(e),
        },
{
    let mut found: Vec<ObjCAttr> = Vec::new();
    let mut idx = attrs.len();
    proof {
        assert(attrs.deep_view().take(idx as int) =~~= attrs.deep_view());
        if spec_collect_objc(attrs.deep_view()) is Ok {
            let whole = spec_collect_objc(attrs.deep_view())->Ok_0;
            assert(found.deep_view() + whole =~~= whole);
        }
    }
    while idx > 0
        invariant
            idx <= attrs@.len(),
            spec_collect_objc(attrs.deep_view()) == (match spec_collect_objc(
                attrs.deep_view().take(idx as int),
            ) {
                Ok(rest) => Ok::<Seq<ObjCAttrV>, DeclError>(found.deep_view() + rest),
                Err(e) => Err(e),
            }),
        decreases idx,
    {
        idx = idx - 1;
        let ghost upto = attrs.deep_view().take(idx as int + 1);
        proof {
            assert(upto.last() == attrs.deep_view()[idx as int]);
            assert(attrs@[idx as int].deep_view() == attrs.deep_view()[idx as int]);
            assert(upto.drop_last() =~~= attrs.deep_view().take(idx as int));
        }
        let a = &attrs[idx];
        if a.is_objc {
            match parse_objc_attr(a) {
                Err(e) => {
                    return Err(e);
                },
                Ok(at) => {
                    let ghost old_found = found.deep_view();
                    found.push(at);
                    proof {
                        assert(found.deep_view() =~~= old_found.push(at.deep_view()));
                        if spec_collect_objc(attrs.deep_view().take(idx as int)) is Ok {
                            let rest = spec_collect_objc(
                                attrs.deep_view().take(idx as int),
                            )->Ok_0;
                            assert(old_found + (seq![at.deep_view()] + rest) =~~= found.deep_view()
                                + rest);
                        }
                    }
                },
            }
        }
    }
    proof {
        assert(attrs.deep_view().take(0) =~~= Seq::<AttrInputV>::empty());
        assert(found.deep_view() + Seq::<ObjCAttrV>::empty() =~~= found.deep_view());
    }
    Ok(found)
}

/// Checks the parameters in declared order and collects their names.
fn check_params(params: &Vec<ParamInput>) -> (r: Result<Vec<Vec<u8>>, DeclError>)
    ensures
        match r {
            Ok(names) => spec_check_params(params.deep_view()) == Ok::<
                Seq<Seq<u8>>,
                DeclError,
            >(names.deep_view()),
            Err(e) => spec_check_params(params.deep_view()) == Err::<Seq<Seq<u8>>, DeclError>(e),
        },
{
    let mut names: Vec<Vec<u8>> = Vec::new();
    let mut i: usize = 0;
    proof {
        assert(params.deep_view().skip(0) =~~= params.deep_view());
        if spec_check_params(params.deep_view()) is Ok {
            let whole = spec_check_params(params.deep_view())->Ok_0;
            assert(names.deep_view() + whole =~~= whole);
        }
    }
    while i < params.len()
        invariant
            i <= params@.len(),
            spec_check_params(params.deep_view()) == (match spec_check_params(
                params.deep_view().skip(i as int),
            ) {
                Ok(rest) => Ok::<Seq<Seq<u8>>, DeclError>(names.deep_view() + rest),
                Err(e) => Err(e),
            }),
        decreases params@.len() - i,
    {
        let ghost suffix = params.deep_view().skip(i as int);
        proof {
            assert(suffix[0] == params.deep_view()[i as int]);
            assert(params@[i as int].deep_view() == params.deep_view()[i as int]);
            assert(suffix.drop_first() =~~= params.deep_view().skip(i as int + 1));
        }
        match &params[i] {
            ParamInput::Receiver => {
                return Err(DeclError::SelfReceiverUnsupported);
            },
            ParamInput::Typed { pat, is_pointer: _ } => match pat {
                ParamPat::Destructured => {
                    return Err(DeclError::DestructuringUnsupported);
                },
                ParamPat::Named(n) => {
                    let owned = copy_bytes(n.as_slice());
                    let ghost old_names = names.deep_view();
                    names.push(owned);
                    proof {
                        assert(names.deep_view() =~~= old_names.push(n@));
                        if spec_check_params(params.deep_view().skip(i as int + 1)) is Ok {
                            let rest = spec_check_params(
                                params.deep_view().skip(i as int + 1),
                            )->Ok_0;
                            assert(old_names + (seq![n@] + rest) =~~= names.deep_view() + rest);
                        }
                    }
                },
            },
        }
        i = i + 1;
    }
    proof {
        assert(params.deep_view().skip(i as int) =~~= Seq::<ParamInputV>::empty());
        assert(names.deep_view() + Seq::<Seq<u8>>::empty() =~~= names.deep_view());
    }
    Ok(names)
}

/// Validates one declaration, producing the first applicable error, in the
/// fixed order: modifiers, annotation, arity, parameter shapes, receiver.
pub fn parse_decl(d: &DeclInput) -> (r: Result<BindingDecl, DeclError>)
    ensures
        match r {
            Ok(b) => spec_parse_decl(d.deep_view()) == Ok::<BindingDeclV, DeclError>(b.deep_view()),
            Err(e) => spec_parse_decl(d.deep_view()) == Err::<BindingDeclV, DeclError>(e),
        },
{
    if d.is_const {
        return Err(DeclError::ConstUnsupported);
    }
    if d.is_async {
        return Err(DeclError::AsyncUnsupported);
    }
    if d.is_unsafe {
        return Err(DeclError::ImplicitlyUnsafe);
    }
    if d.has_abi {
        return Err(DeclError::CustomAbi);
    }
    if d.is_variadic {
        return Err(DeclError::VariadicUnsupported);
    }
    if d.has_generics {
        return Err(DeclError::GenericsUnsupported);
    }
    let mut found = match collect_objc_attrs(&d.attrs) {
        Ok(v) => v,
        Err(e) => {
            return Err(e);
        },
    };
    if found.len() == 0 {
        return Err(DeclError::MissingObjcAttr);
    }
    if found.len() > 1 {
        return Err(DeclError::DuplicateObjcAttr);
    }
    proof {
        assert(found@[0].deep_view() == found.deep_view()[0]);
    }
    let attr = found.remove(0);
    let sel_args = attr.objc_meth_name.arg_count();
    if sel_args != d.params.len() {
        return Err(
            DeclError::ArityMismatch { selector_args: sel_args, declared_args: d.params.len() },
        );
    }
    let mut names = match check_params(&d.params) {
        Ok(n) => n,
        Err(e) => {
            return Err(e);
        },
    };
    proof {
        lemma_check_params_len(d.params.deep_view());
        assert(names.deep_view().len() == d.params.deep_view().len());
    }
    match &d.params[0] {
        ParamInput::Typed { pat: _, is_pointer } => {
            proof {
                assert(d.params@[0].deep_view() == d.params.deep_view()[0]);
            }
            if !*is_pointer {
                return Err(DeclError::ReceiverNotPointer);
            }
            let ghost names_before = names.deep_view();
            let receiver_name = names.remove(0);
            let b = BindingDecl {
                ident: copy_bytes(d.ident.as_slice()),
                receiver_name,
                arg_names: names,
                objc_meth_name: attr.objc_meth_name,
                versions: attr.versions,
            };
            proof {
                assert(receiver_name@ == names_before[0]) by {
                    assert(names_before[0] == b.receiver_name@);
                }
                assert(b.arg_names.deep_view() =~~= names_before.drop_first());
                assert(spec_parse_decl(d.deep_view()) == Ok::<BindingDeclV, DeclError>(
                    b.deep_view(),
                ));
            }
            Ok(b)
        },
        ParamInput::Receiver => {
            proof {
                assert(d.params@[0].deep_view() == d.params.deep_view()[0]);
            }
            Err(DeclError::SelfReceiverUnsupported)
        },
    }
}

} // verus!
