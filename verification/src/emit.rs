//! The artifact emitter.
//!
//! For each validated declaration three functions are generated: the
//! dispatch wrapper (named by the declaration itself), the selector
//! accessor, and the availability-check function. This module computes
//! everything those artifacts need that is data rather than syntax: the
//! derived function names, the selector string, the uniquely named symbols
//! of the build-time cached resolution strategy, and the text of the
//! debug-mode availability assertion.

use vstd::prelude::*;
use crate::availability::{spec_os_name, NSOperatingSystemVersion, OS, OSVersions};
use crate::bytesplit::{append_bytes, copy_bytes};
use crate::decl::BindingDecl;
use crate::selector::{canonical_seq, ObjCMethName};
use crate::version::Version;

verus! {

// ----- the symbol hash -----

/// What the process-wide default hasher returns for a byte string.
pub uninterp spec fn hash_of(bytes: Seq<u8>) -> u64;

/// Relies on std's `DefaultHasher` (`new`, `Hash::hash`, `Hasher::finish`):
/// hashers constructed through `new` are documented to produce the same
/// output for the same input, so the result is a function of the bytes
/// alone. The hash only serves to give cached-resolution symbols distinct
/// names.
#[verifier::external_body]
pub fn calculate_hash(t: &[u8]) -> (r: u64)
    ensures
        r == hash_of(t@),
{
    let mut s = std::collections::hash_map::DefaultHasher::new();
    std::hash::Hash::hash(t, &mut s);
    std::hash::Hasher::finish(&s)
}

// ----- decimal rendering -----

/// The decimal digits of `n`, most significant first.
pub open spec fn spec_decimal(n: nat) -> Seq<u8>
    decreases n,
{
    if n < 10 {
        seq![(48 + n) as u8]
    } else {
        spec_decimal(n / 10).push((48 + n % 10) as u8)
    }
}

/// The decimal rendering of a signed value: a minus sign, then the digits
/// of the magnitude.
pub open spec fn spec_decimal_i64(n: int) -> Seq<u8> {
    if n < 0 {
        seq![45u8] + spec_decimal((0 - n) as nat)
    } else {
        spec_decimal(n as nat)
    }
}

/// Renders `n` in decimal.
pub fn u64_to_decimal(n: u64) -> (r: Vec<u8>)
    ensures
        r@ == spec_decimal(n as nat),
{
    let mut out: Vec<u8> = Vec::new();
    if n == 0 {
        out.push(48);
        proof {
            assert(out@ =~= spec_decimal(0));
        }
        return out;
    }
    let mut cur = n;
    proof {
        assert(spec_decimal(n as nat) =~= spec_decimal(cur as nat) + out@);
    }
    while cur > 0
        invariant
            cur > 0 ==> spec_decimal(n as nat) == spec_decimal(cur as nat) + out@,
            cur == 0 ==> spec_decimal(n as nat) == out@,
        decreases cur,
    {
        let d = (cur % 10) as u8 + 48;
        let ghost prev = out@;
        let ghost prev_cur = cur as nat;
        out.insert(0, d);
        proof {
            assert(out@ =~= seq![d] + prev);
        }
        cur = cur / 10;
        proof {
            if prev_cur < 10 {
                assert(spec_decimal(prev_cur) + prev =~= out@);
            } else {
                assert(spec_decimal(prev_cur) + prev =~= spec_decimal(cur as nat) + out@);
            }
        }
    }
    out
}

/// Renders `n` in decimal, minus sign first when negative.
pub fn i64_to_decimal(n: i64) -> (r: Vec<u8>)
    ensures
        r@ == spec_decimal_i64(n as int),
{
    if n >= 0 {
        u64_to_decimal(n as u64)
    } else {
        let mag: u64 = if n == i64::MIN {
            9223372036854775808u64
        } else {
            (0 - n) as u64
        };
        let mut out: Vec<u8> = Vec::new();
        out.push(45);
        let digits = u64_to_decimal(mag);
        append_bytes(&mut out, digits.as_slice());
        proof {
            assert(out@ =~= seq![45u8] + spec_decimal(mag as nat));
        }
        out
    }
}

// ----- derived function names -----

/// The prefix of the selector accessor's name.
pub open spec fn spec_sel_fn_prefix() -> Seq<u8> {
    seq![95u8, 115u8, 101u8, 108u8, 95u8]  // "_sel_"
}

/// The prefix of the availability-check function's name.
pub open spec fn spec_supports_fn_prefix() -> Seq<u8> {
    seq![95u8, 115u8, 117u8, 112u8, 112u8, 111u8, 114u8, 116u8, 115u8, 95u8]  // "_supports_"
}

/// The selector accessor's name for a wrapper named `ident`.
pub open spec fn spec_sel_func_name(ident: Seq<u8>) -> Seq<u8> {
    spec_sel_fn_prefix() + ident
}

/// The availability-check function's name for a wrapper named `ident`.
pub open spec fn spec_supports_func_name(ident: Seq<u8>) -> Seq<u8> {
    spec_supports_fn_prefix() + ident
}

/// Builds the selector accessor's name.
pub fn sel_func_name(ident: &[u8]) -> (r: Vec<u8>)
    ensures
        r@ == spec_sel_func_name(ident@),
{
    let mut v: Vec<u8> = Vec::new();
    v.push(95);
    v.push(115);
    v.push(101);
    v.push(108);
    v.push(95);
    proof {
        assert(v@ =~= spec_sel_fn_prefix());
    }
    append_bytes(&mut v, ident);
    v
}

/// Builds the availability-check function's name.
pub fn supports_func_name(ident: &[u8]) -> (r: Vec<u8>)
    ensures
        r@ == spec_supports_func_name(ident@),
{
    let mut v: Vec<u8> = Vec::new();
    v.push(95);
    v.push(115);
    v.push(117);
    v.push(112);
    v.push(112);
    v.push(111);
    v.push(114);
    v.push(116);
    v.push(115);
    v.push(95);
    proof {
        assert(v@ =~= spec_supports_fn_prefix());
    }
    append_bytes(&mut v, ident);
    v
}

// ----- cached-resolution symbol names -----

/// The section-tagged method-name symbol's prefix.
pub open spec fn spec_meth_symbol_prefix() -> Seq<u8> {
    seq![
        1u8, 76u8, 95u8, 79u8, 66u8, 74u8, 67u8, 95u8, 77u8, 69u8, 84u8, 72u8, 95u8, 86u8, 65u8,
        82u8, 95u8, 78u8, 65u8, 77u8, 69u8, 95u8, 46u8, 95u8, 95u8, 111u8, 98u8, 106u8, 99u8,
        95u8, 117u8, 116u8, 105u8, 108u8, 95u8, 109u8, 101u8, 116u8, 104u8, 46u8,
    ]
}

/// The selector-reference symbol's prefix.
pub open spec fn spec_sel_ref_prefix() -> Seq<u8> {
    seq![
        1u8, 76u8, 95u8, 79u8, 66u8, 74u8, 67u8, 95u8, 83u8, 69u8, 76u8, 69u8, 67u8, 84u8, 79u8,
        82u8, 95u8, 82u8, 69u8, 70u8, 69u8, 82u8, 69u8, 78u8, 67u8, 69u8, 83u8, 95u8, 46u8, 95u8,
        95u8, 111u8, 98u8, 106u8, 99u8, 95u8, 117u8, 116u8, 105u8, 108u8, 95u8, 115u8, 101u8,
        108u8, 46u8,
    ]
}

/// The class symbol's prefix.
pub open spec fn spec_class_symbol_prefix() -> Seq<u8> {
    seq![1u8, 95u8, 79u8, 66u8, 74u8, 67u8, 95u8, 67u8, 76u8, 65u8, 83u8, 83u8, 95u8, 36u8, 95u8]
}

/// The class-reference symbol's prefix.
pub open spec fn spec_class_ref_prefix() -> Seq<u8> {
    seq![
        1u8, 76u8, 95u8, 79u8, 66u8, 74u8, 67u8, 95u8, 67u8, 76u8, 65u8, 83u8, 83u8, 76u8, 73u8,
        83u8, 84u8, 95u8, 82u8, 69u8, 70u8, 69u8, 82u8, 69u8, 78u8, 67u8, 69u8, 83u8, 95u8, 36u8,
        95u8, 46u8,
    ]
}

/// The stable per-declaration identifier: the decimal hash of the name and
/// its source-location discriminator, so that the same name declared in two
/// places still gets distinct symbols.
pub open spec fn spec_unique_id(name: Seq<u8>, loc: Seq<u8>) -> Seq<u8> {
    spec_decimal(hash_of(name + loc) as nat)
}

/// `prefix` + id + `.` + `name`: the shape every cached-resolution symbol
/// shares.
pub open spec fn spec_symbol(prefix: Seq<u8>, name: Seq<u8>, loc: Seq<u8>) -> Seq<u8> {
    prefix + spec_unique_id(name, loc) + seq![46u8] + name
}

/// Builds `prefix` + decimal hash id + `.` + `name`.
fn symbol_with_id(prefix: Vec<u8>, name: &[u8], loc: &[u8]) -> (r: Vec<u8>)
    requires
        prefix@ == spec_meth_symbol_prefix() || prefix@ == spec_sel_ref_prefix() || prefix@
            == spec_class_ref_prefix(),
    ensures
        r@ == spec_symbol(prefix@, name@, loc@),
{
    let mut key = copy_bytes(name);
    append_bytes(&mut key, loc);
    let h = calculate_hash(key.as_slice());
    let id = u64_to_decimal(h);
    let mut out = prefix;
    append_bytes(&mut out, id.as_slice());
    out.push(46);
    append_bytes(&mut out, name);
    proof {
        assert(out@ =~= spec_symbol(prefix@, name@, loc@));
    }
    out
}

/// Builds the method-name symbol prefix.
fn meth_symbol_prefix() -> (r: Vec<u8>)
    ensures
        r@ == spec_meth_symbol_prefix(),
{
    let mut v: Vec<u8> = Vec::new();
    v.push(1);
    v.push(76);
    v.push(95);
    v.push(79);
    v.push(66);
    v.push(74);
    v.push(67);
    v.push(95);
    v.push(77);
    v.push(69);
    v.push(84);
    v.push(72);
    v.push(95);
    v.push(86);
    v.push(65);
    v.push(82);
    v.push(95);
    v.push(78);
    v.push(65);
    v.push(77);
    v.push(69);
    v.push(95);
    v.push(46);
    v.push(95);
    v.push(95);
    v.push(111);
    v.push(98);
    v.push(106);
    v.push(99);
    v.push(95);
    v.push(117);
    v.push(116);
    v.push(105);
    v.push(108);
    v.push(95);
    v.push(109);
    v.push(101);
    v.push(116);
    v.push(104);
    v.push(46);
    proof {
        assert(v@ =~= spec_meth_symbol_prefix());
    }
    v
}

/// Builds the selector-reference symbol prefix.
fn sel_ref_prefix() -> (r: Vec<u8>)
    ensures
        r@ == spec_sel_ref_prefix(),
{
    let mut v: Vec<u8> = Vec::new();
    v.push(1);
    v.push(76);
    v.push(95);
    v.push(79);
    v.push(66);
    v.push(74);
    v.push(67);
    v.push(95);
    v.push(83);
    v.push(69);
    v.push(76);
    v.push(69);
    v.push(67);
    v.push(84);
    v.push(79);
    v.push(82);
    v.push(95);
    v.push(82);
    v.push(69);
    v.push(70);
    v.push(69);
    v.push(82);
    v.push(69);
    v.push(78);
    v.push(67);
    v.push(69);
    v.push(83);
    v.push(95);
    v.push(46);
    v.push(95);
    v.push(95);
    v.push(111);
    v.push(98);
    v.push(106);
    v.push(99);
    v.push(95);
    v.push(117);
    v.push(116);
    v.push(105);
    v.push(108);
    v.push(95);
    v.push(115);
    v.push(101);
    v.push(108);
    v.push(46);
    proof {
        assert(v@ =~= spec_sel_ref_prefix());
    }
    v
}

/// Builds the class symbol for a class name: the fixed prefix, then the
/// name itself; no hash, since the symbol addresses the class itself.
pub fn class_symbol(class: &[u8]) -> (r: Vec<u8>)
    ensures
        r@ == spec_class_symbol_prefix() + class@,
{
    let mut v: Vec<u8> = Vec::new();
    v.push(1);
    v.push(95);
    v.push(79);
    v.push(66);
    v.push(74);
    v.push(67);
    v.push(95);
    v.push(67);
    v.push(76);
    v.push(65);
    v.push(83);
    v.push(83);
    v.push(95);
    v.push(36);
    v.push(95);
    proof {
        assert(v@ =~= spec_class_symbol_prefix());
    }
    append_bytes(&mut v, class);
    v
}

/// Builds the uniquely named class-reference symbol for a class name and a
/// source-location discriminator.
pub fn class_ref_symbol(class: &[u8], loc: &[u8]) -> (r: Vec<u8>)
    ensures
        r@ == spec_symbol(spec_class_ref_prefix(), class@, loc@),
{
    let mut v: Vec<u8> = Vec::new();
    v.push(1);
    v.push(76);
    v.push(95);
    v.push(79);
    v.push(66);
    v.push(74);
    v.push(67);
    v.push(95);
    v.push(67);
    v.push(76);
    v.push(65);
    v.push(83);
    v.push(83);
    v.push(76);
    v.push(73);
    v.push(83);
    v.push(84);
    v.push(95);
    v.push(82);
    v.push(69);
    v.push(70);
    v.push(69);
    v.push(82);
    v.push(69);
    v.push(78);
    v.push(67);
    v.push(69);
    v.push(83);
    v.push(95);
    v.push(36);
    v.push(95);
    v.push(46);
    proof {
        assert(v@ =~= spec_class_ref_prefix());
    }
    symbol_with_id(v, class, loc)
}

// ----- token resolution strategies -----

/// How a generated selector accessor obtains the runtime token: either a
/// pair of section-tagged symbols that a cooperating loader pre-resolves
/// (the NUL-terminated selector literal placed in the method-name section,
/// read back through the reference symbol), or a call-time lookup of the
/// literal name.
pub enum Resolution {
    Cached { meth_symbol: Vec<u8>, ref_symbol: Vec<u8>, selector_literal: Vec<u8> },
    Lookup { selector: Vec<u8> },
}

pub enum ResolutionV {
    Cached { meth_symbol: Seq<u8>, ref_symbol: Seq<u8>, selector_literal: Seq<u8> },
    Lookup { selector: Seq<u8> },
}

impl DeepView for Resolution {
    type V = ResolutionV;

    open spec fn deep_view(&self) -> ResolutionV {
        match self {
            Resolution::Cached { meth_symbol, ref_symbol, selector_literal } => {
                ResolutionV::Cached {
                    meth_symbol: meth_symbol@,
                    ref_symbol: ref_symbol@,
                    selector_literal: selector_literal@,
                }
            },
            Resolution::Lookup { selector } => ResolutionV::Lookup { selector: selector@ },
        }
    }
}

/// The message-name string a resolution hands to the runtime: the literal
/// looked up at call time, or the cached literal without its trailing NUL.
pub open spec fn resolution_selector(r: ResolutionV) -> Seq<u8> {
    match r {
        ResolutionV::Cached { selector_literal, .. } => selector_literal.drop_last(),
        ResolutionV::Lookup { selector } => selector,
    }
}

/// A token resolution strategy, selected once per build. Whichever strategy
/// is chosen, the name handed to the runtime is the message name's
/// canonical surface form, so switching strategies cannot change which
/// method a wrapper addresses.
pub trait TokenStrategy {
    fn resolve(&self, meth: &ObjCMethName, loc: &[u8]) -> (r: Resolution)
        ensures
            resolution_selector(r.deep_view()) == canonical_seq(meth@),
    ;
}

/// The build-time cached strategy: section-tagged symbols, pre-resolved by
/// the loader before the first call.
pub struct CompileTimeStrategy;

/// The call-time strategy: a lookup of the literal name on every call.
pub struct RuntimeStrategy;

impl TokenStrategy for CompileTimeStrategy {
    fn resolve(&self, meth: &ObjCMethName, loc: &[u8]) -> (r: Resolution)
        ensures
            resolution_selector(r.deep_view()) == canonical_seq(meth@),
            r.deep_view() matches ResolutionV::Cached {
                meth_symbol,
                ref_symbol,
                selector_literal,
            } && meth_symbol == spec_symbol(spec_meth_symbol_prefix(), canonical_seq(meth@), loc@)
                && ref_symbol == spec_symbol(spec_sel_ref_prefix(), canonical_seq(meth@), loc@)
                && selector_literal == canonical_seq(meth@) + seq![0u8],
    {
        let sel = meth.as_string();
        let meth_symbol = symbol_with_id(meth_symbol_prefix(), sel.as_slice(), loc);
        let ref_symbol = symbol_with_id(sel_ref_prefix(), sel.as_slice(), loc);
        let mut selector_literal = copy_bytes(sel.as_slice());
        selector_literal.push(0);
        proof {
            assert(selector_literal@.drop_last() =~= canonical_seq(meth@));
        }
        Resolution::Cached { meth_symbol, ref_symbol, selector_literal }
    }
}

impl TokenStrategy for RuntimeStrategy {
    fn resolve(&self, meth: &ObjCMethName, loc: &[u8]) -> (r: Resolution)
        ensures
            resolution_selector(r.deep_view()) == canonical_seq(meth@),
            r.deep_view() == (ResolutionV::Lookup { selector: canonical_seq(meth@) }),
    {
        Resolution::Lookup { selector: meth.as_string() }
    }
}

/// Two resolutions of the same message name hand the runtime the same
/// selector string, whichever strategies produced them: switching the
/// strategy cannot change what a dispatch wrapper sends.
pub proof fn lemma_strategies_agree(m: Seq<u8>, r1: ResolutionV, r2: ResolutionV)
    requires
        resolution_selector(r1) == m,
        resolution_selector(r2) == m,
    ensures
        resolution_selector(r1) == resolution_selector(r2),
{
}

impl ObjCMethName {
    /// The data of the selector accessor's body, under the given strategy.
    pub fn selector_func_body<S: TokenStrategy>(&self, strategy: &S, loc: &[u8]) -> (r: Resolution)
        ensures
            resolution_selector(r.deep_view()) == canonical_seq(self@),
    {
        strategy.resolve(self, loc)
    }
}

// ----- the debug-mode availability assertion -----

/// The text of the debug-mode availability fault: the wrapper's name, the
/// OS and minimum version it requires, and the version found running.
pub open spec fn spec_availability_message(
    func: Seq<u8>,
    os: OS,
    req: Version,
    live: NSOperatingSystemVersion,
) -> Seq<u8> {
    seq![96u8] + func + seq![96u8, 32u8, 114u8, 101u8, 113u8, 117u8, 105u8, 114u8, 101u8, 115u8, 32u8, 96u8]
        + spec_os_name(os) + seq![32u8] + spec_decimal_i64(req.major as int) + seq![46u8]
        + spec_decimal_i64(req.minor as int) + seq![46u8] + spec_decimal_i64(req.patch as int)
        + seq![96u8, 32u8, 98u8, 117u8, 116u8, 32u8, 102u8, 111u8, 117u8, 110u8, 100u8, 32u8, 96u8]
        + spec_decimal_i64(live.major as int) + seq![46u8] + spec_decimal_i64(live.minor as int)
        + seq![46u8] + spec_decimal_i64(live.patch as int) + seq![96u8]
}

/// Builds the availability fault text.
pub fn availability_message(
    func: &[u8],
    os: OS,
    req: &Version,
    live: &NSOperatingSystemVersion,
) -> (r: Vec<u8>)
    ensures
        r@ == spec_availability_message(func@, os, *req, *live),
{
    let mut v: Vec<u8> = Vec::new();
    v.push(96);
    append_bytes(&mut v, func);
    v.push(96);
    v.push(32);
    v.push(114);
    v.push(101);
    v.push(113);
    v.push(117);
    v.push(105);
    v.push(114);
    v.push(101);
    v.push(115);
    v.push(32);
    v.push(96);
    let os_name = os.name_bytes();
    append_bytes(&mut v, os_name.as_slice());
    v.push(32);
    let d = i64_to_decimal(req.major);
    append_bytes(&mut v, d.as_slice());
    v.push(46);
    let d = i64_to_decimal(req.minor);
    append_bytes(&mut v, d.as_slice());
    v.push(46);
    let d = i64_to_decimal(req.patch);
    append_bytes(&mut v, d.as_slice());
    v.push(96);
    v.push(32);
    v.push(98);
    v.push(117);
    v.push(116);
    v.push(32);
    v.push(102);
    v.push(111);
    v.push(117);
    v.push(110);
    v.push(100);
    v.push(32);
    v.push(96);
    let d = i64_to_decimal(live.major);
    append_bytes(&mut v, d.as_slice());
    v.push(46);
    let d = i64_to_decimal(live.minor);
    append_bytes(&mut v, d.as_slice());
    v.push(46);
    let d = i64_to_decimal(live.patch);
    append_bytes(&mut v, d.as_slice());
    v.push(96);
    proof {
        assert(v@ =~= spec_availability_message(func@, os, *req, *live));
    }
    v
}

// ----- the artifacts of one declaration -----

/// Everything data-shaped about the three generated functions of one
/// declaration: their names, the selector string, the token resolution, and
/// the availability map driving the conditional-compilation filter and the
/// supported predicate.
pub struct Artifacts {
    pub wrapper_name: Vec<u8>,
    pub sel_func_name: Vec<u8>,
    pub supports_func_name: Vec<u8>,
    pub selector: Vec<u8>,
    pub resolution: Resolution,
    pub versions: OSVersions,
}

/// Computes the artifacts of one validated declaration under the chosen
/// resolution strategy and source-location discriminator.
pub fn emit_artifacts<S: TokenStrategy>(d: &BindingDecl, strategy: &S, loc: &[u8]) -> (r: Artifacts)
    ensures
        r.wrapper_name@ == d.ident@,
        r.sel_func_name@ == spec_sel_func_name(d.ident@),
        r.supports_func_name@ == spec_supports_func_name(d.ident@),
        r.selector@ == canonical_seq(d.objc_meth_name@),
        resolution_selector(r.resolution.deep_view()) == canonical_seq(d.objc_meth_name@),
        r.versions == d.versions,
{
    Artifacts {
        wrapper_name: copy_bytes(d.ident.as_slice()),
        sel_func_name: sel_func_name(d.ident.as_slice()),
        supports_func_name: supports_func_name(d.ident.as_slice()),
        selector: d.objc_meth_name.as_string(),
        resolution: strategy.resolve(&d.objc_meth_name, loc),
        versions: d.versions,
    }
}

/// The artifacts of one declaration, as `emit_artifacts` states them.
pub open spec fn artifacts_ok(a: Artifacts, d: crate::decl::BindingDeclV) -> bool {
    &&& a.wrapper_name@ == d.ident
    &&& a.sel_func_name@ == spec_sel_func_name(d.ident)
    &&& a.supports_func_name@ == spec_supports_func_name(d.ident)
    &&& a.selector@ == canonical_seq(d.objc_meth_name)
    &&& resolution_selector(a.resolution.deep_view()) == canonical_seq(d.objc_meth_name)
    &&& a.versions == d.versions
}

/// Computes the artifacts of every declaration of a validated block, in
/// declared order, pairing each with its source-location discriminator.
pub fn emit_block<S: TokenStrategy>(
    w: &crate::framework::MsgWrappers,
    strategy: &S,
    locs: &Vec<Vec<u8>>,
) -> (r: Vec<Artifacts>)
    requires
        locs@.len() == w.funcs@.len(),
    ensures
        r@.len() == w.funcs@.len(),
        forall|i: int|
            0 <= i < r@.len() ==> artifacts_ok(#[trigger] r@[i], w.funcs.deep_view()[i]),
{
    let mut out: Vec<Artifacts> = Vec::new();
    let mut i: usize = 0;
    while i < w.funcs.len()
        invariant
            i <= w.funcs@.len(),
            locs@.len() == w.funcs@.len(),
            out@.len() == i,
            forall|j: int|
                0 <= j < i ==> artifacts_ok(#[trigger] out@[j], w.funcs.deep_view()[j]),
        decreases w.funcs@.len() - i,
    {
        proof {
            assert(w.funcs@[i as int].deep_view() == w.funcs.deep_view()[i as int]);
        }
        let a = emit_artifacts(&w.funcs[i], strategy, locs[i].as_slice());
        out.push(a);
        i = i + 1;
    }
    out
}

} // verus!
