//! The declaration-set model.
//!
//! A block of declarations sits under one framework-link directive. The
//! block's ABI name, when present, must be the object-messaging one; every
//! item must be a function declaration; each declaration is validated in
//! order and the first failure aborts the set.

use vstd::prelude::*;
use crate::decl::{
    parse_decl, spec_parse_decl, BindingDecl, BindingDeclV, DeclError, DeclInput, DeclInputV,
};

verus! {

/// One item of the declaration block: a function declaration, or something
/// else (rejected).
pub enum ForeignItem {
    Fn(DeclInput),
    Other,
}

pub enum ForeignItemV {
    Fn(DeclInputV),
    Other,
}

impl DeepView for ForeignItem {
    type V = ForeignItemV;

    open spec fn deep_view(&self) -> ForeignItemV {
        match self {
            ForeignItem::Fn(d) => ForeignItemV::Fn(d.deep_view()),
            ForeignItem::Other => ForeignItemV::Other,
        }
    }
}

/// The directive key `framework`, as bytes.
pub open spec fn spec_framework_key() -> Seq<u8> {
    seq![102u8, 114u8, 97u8, 109u8, 101u8, 119u8, 111u8, 114u8, 107u8]
}

/// The block's required ABI name `ObjC`, as bytes.
pub open spec fn spec_objc_abi() -> Seq<u8> {
    seq![79u8, 98u8, 106u8, 67u8]
}

/// The framework-link directive: its key must be `framework`; the value is
/// the framework's name.
pub struct Framework {
    pub name: Vec<u8>,
}

/// Parsing the directive: `framework = "Name"`.
pub open spec fn spec_parse_framework(key: Seq<u8>, name: Seq<u8>) -> Result<Seq<u8>, DeclError> {
    if key == spec_framework_key() {
        Ok(name)
    } else {
        Err(DeclError::ExpectedFrameworkKey)
    }
}

impl Framework {
    /// Parses the framework-link directive.
    pub fn parse(key: &[u8], name: &[u8]) -> (r: Result<Framework, DeclError>)
        ensures
            match r {
                Ok(f) => spec_parse_framework(key@, name@) == Ok::<Seq<u8>, DeclError>(f.name@),
                Err(e) => spec_parse_framework(key@, name@) == Err::<Seq<u8>, DeclError>(e),
            },
    {
        if key.len() == 9 && key[0] == 102 && key[1] == 114 && key[2] == 97 && key[3] == 109
            && key[4] == 101 && key[5] == 119 && key[6] == 111 && key[7] == 114 && key[8] == 107 {
            proof {
                assert(key@ =~= spec_framework_key());
            }
            Ok(Framework { name: crate::bytesplit::copy_bytes(name) })
        } else {
            Err(DeclError::ExpectedFrameworkKey)
        }
    }
}

/// Validating the items of a block, in order: each must be a function
/// declaration and each must validate; the first failure wins.
pub open spec fn spec_parse_items(items: Seq<ForeignItemV>) -> Result<Seq<BindingDeclV>, DeclError>
    decreases items.len(),
{
    if items.len() == 0 {
        Ok(seq![])
    } else {
        match items[0] {
            ForeignItemV::Other => Err(DeclError::ExpectedFunction),
            ForeignItemV::Fn(d) => match spec_parse_decl(d) {
                Err(e) => Err(e),
                Ok(b) => match spec_parse_items(items.drop_first()) {
                    Err(e) => Err(e),
                    Ok(rest) => Ok(seq![b] + rest),
                },
            },
        }
    }
}

/// The validated declarations of one block, in declared order.
pub struct MsgWrappers {
    pub funcs: Vec<BindingDecl>,
}

/// Validates the items of one block.
pub fn parse_msg_wrappers(items: &Vec<ForeignItem>) -> (r: Result<MsgWrappers, DeclError>)
    ensures
        match r {
            Ok(w) => spec_parse_items(items.deep_view()) == Ok::<
                Seq<BindingDeclV>,
                DeclError,
            >(w.funcs.deep_view()),
            Err(e) => spec_parse_items(items.deep_view()) == Err::<Seq<BindingDeclV>, DeclError>(e),
        },
{
    let mut funcs: Vec<BindingDecl> = Vec::new();
    let mut i: usize = 0;
    proof {
        assert(items.deep_view().skip(0) =~~= items.deep_view());
        if spec_parse_items(items.deep_view()) is Ok {
            let whole = spec_parse_items(items.deep_view())->Ok_0;
            assert(funcs.deep_view() + whole =~~= whole);
        }
    }
    while i < items.len()
        invariant
            i <= items@.len(),
            spec_parse_items(items.deep_view()) == (match spec_parse_items(
                items.deep_view().skip(i as int),
            ) {
                Ok(rest) => Ok::<Seq<BindingDeclV>, DeclError>(funcs.deep_view() + rest),
                Err(e) => Err(e),
            }),
        decreases items@.len() - i,
    {
        let ghost suffix = items.deep_view().skip(i as int);
        proof {
            assert(suffix[0] == items.deep_view()[i as int]);
            assert(items@[i as int].deep_view() == items.deep_view()[i as int]);
            assert(suffix.drop_first() =~~= items.deep_view().skip(i as int + 1));
        }
        match &items[i] {
            ForeignItem::Other => {
                return Err(DeclError::ExpectedFunction);
            },
            ForeignItem::Fn(d) => match parse_decl(d) {
                Err(e) => {
                    return Err(e);
                },
                Ok(b) => {
                    let ghost old_funcs = funcs.deep_view();
                    let ghost bv = b.deep_view();
                    funcs.push(b);
                    proof {
                        assert(funcs.deep_view() =~~= old_funcs.push(bv));
                        if spec_parse_items(items.deep_view().skip(i as int + 1)) is Ok {
                            let rest = spec_parse_items(
                                items.deep_view().skip(i as int + 1),
                            )->Ok_0;
                            assert(old_funcs + (seq![bv] + rest) =~~= funcs.deep_view() + rest);
                        }
                    }
                },
            },
        }
        i = i + 1;
    }
    proof {
        assert(items.deep_view().skip(i as int) =~~= Seq::<ForeignItemV>::empty());
        assert(funcs.deep_view() + Seq::<BindingDeclV>::empty() =~~= funcs.deep_view());
    }
    Ok(MsgWrappers { funcs })
}

/// Validating a whole block: an ABI name other than `ObjC` is rejected; an
/// absent ABI name is accepted; then the items are validated in order.
pub open spec fn spec_parse_block(abi: Option<Seq<u8>>, items: Seq<ForeignItemV>) -> Result<
    Seq<BindingDeclV>,
    DeclError,
> {
    match abi {
        Some(a) => if a != spec_objc_abi() {
            Err(DeclError::ExpectedObjcAbi)
        } else {
            spec_parse_items(items)
        },
        None => spec_parse_items(items),
    }
}

/// Validates a whole block under its optional ABI name.
pub fn parse_block(abi: &Option<Vec<u8>>, items: &Vec<ForeignItem>) -> (r: Result<
    MsgWrappers,
    DeclError,
>)
    ensures
        match r {
            Ok(w) => spec_parse_block(abi.deep_view(), items.deep_view()) == Ok::<
                Seq<BindingDeclV>,
                DeclError,
            >(w.funcs.deep_view()),
            Err(e) => spec_parse_block(abi.deep_view(), items.deep_view()) == Err::<
                Seq<BindingDeclV>,
                DeclError,
            >(e),
        },
{
    match abi {
        Some(a) => {
            proof {
                assert(abi.deep_view() == Some(a@));
            }
            let s = a.as_slice();
            let is_objc_abi = s.len() == 4 && s[0] == 79 && s[1] == 98 && s[2] == 106 && s[3]
                == 67;
            if is_objc_abi {
                proof {
                    assert(a@ =~= spec_objc_abi());
                }
                parse_msg_wrappers(items)
            } else {
                proof {
                    if a@ == spec_objc_abi() {
                        assert(a@[0] == 79 && a@[1] == 98 && a@[2] == 106 && a@[3] == 67);
                    }
                }
                Err(DeclError::ExpectedObjcAbi)
            }
        },
        None => {
            proof {
                assert(abi.deep_view() == Option::<Seq<u8>>::None);
            }
            parse_msg_wrappers(items)
        },
    }
}

} // verus!
