use objc_bindgen::bytesplit::{eq_bytes, split_bytes};
use objc_bindgen::decl::{
    AttrInput, AttrShape, DeclError, DeclInput, MetaItem, MetaValue, ParamInput, ParamPat,
};
use objc_bindgen::framework::{parse_block, parse_msg_wrappers, ForeignItem, Framework};

fn simple_decl(ident: &[u8], selector: &[u8]) -> DeclInput {
    DeclInput {
        ident: ident.to_vec(),
        is_const: false,
        is_async: false,
        is_unsafe: false,
        has_abi: false,
        is_variadic: false,
        has_generics: false,
        attrs: vec![AttrInput {
            is_objc: true,
            shape: AttrShape::List(vec![
                MetaItem::NameValue {
                    name: b"selector".to_vec(),
                    value: MetaValue::Str(selector.to_vec()),
                },
                MetaItem::NameValue {
                    name: b"macos".to_vec(),
                    value: MetaValue::Str(b"10".to_vec()),
                },
            ]),
        }],
        params: vec![ParamInput::Typed {
            pat: ParamPat::Named(b"obj".to_vec()),
            is_pointer: true,
        }],
    }
}

#[test]
fn framework_directive_parses() {
    let f = Framework::parse(b"framework", b"Foundation").unwrap();
    assert_eq!(f.name, b"Foundation".to_vec());
}

#[test]
fn framework_directive_requires_its_key() {
    assert_eq!(
        Framework::parse(b"banana", b"Foundation").err(),
        Some(DeclError::ExpectedFrameworkKey)
    );
}

#[test]
fn block_accepts_the_objc_abi() {
    let items = vec![
        ForeignItem::Fn(simple_decl(b"nsobj_alloc", b"alloc")),
        ForeignItem::Fn(simple_decl(b"nsobj_init", b"init")),
    ];
    let w = parse_block(&Some(b"ObjC".to_vec()), &items).unwrap();
    assert_eq!(w.funcs.len(), 2);
    assert_eq!(w.funcs[0].ident, b"nsobj_alloc".to_vec());
    assert_eq!(w.funcs[1].ident, b"nsobj_init".to_vec());
}

#[test]
fn block_accepts_a_missing_abi_name() {
    let items = vec![ForeignItem::Fn(simple_decl(b"nsobj_alloc", b"alloc"))];
    assert!(parse_block(&None, &items).is_ok());
}

#[test]
fn block_rejects_another_abi() {
    let items = vec![ForeignItem::Fn(simple_decl(b"nsobj_alloc", b"alloc"))];
    assert_eq!(
        parse_block(&Some(b"C".to_vec()), &items).err(),
        Some(DeclError::ExpectedObjcAbi)
    );
}

#[test]
fn block_rejects_a_non_function_item() {
    let items = vec![
        ForeignItem::Fn(simple_decl(b"nsobj_alloc", b"alloc")),
        ForeignItem::Other,
    ];
    assert_eq!(parse_msg_wrappers(&items).err(), Some(DeclError::ExpectedFunction));
}

#[test]
fn first_bad_declaration_aborts_the_set() {
    let mut bad = simple_decl(b"broken", b"alloc");
    bad.attrs.clear();
    let items = vec![
        ForeignItem::Fn(simple_decl(b"nsobj_alloc", b"alloc")),
        ForeignItem::Fn(bad),
    ];
    assert_eq!(parse_msg_wrappers(&items).err(), Some(DeclError::MissingObjcAttr));
}

#[test]
fn split_bytes_splits_on_the_delimiter() {
    let parts = split_bytes(b"a.bc..d", 46);
    assert_eq!(
        parts,
        vec![b"a".to_vec(), b"bc".to_vec(), b"".to_vec(), b"d".to_vec()]
    );
    assert_eq!(split_bytes(b"", 46), vec![b"".to_vec()]);
    assert_eq!(split_bytes(b"abc", 46), vec![b"abc".to_vec()]);
    assert_eq!(split_bytes(b"a.", 46), vec![b"a".to_vec(), b"".to_vec()]);
}

#[test]
fn eq_bytes_is_byte_equality() {
    assert!(eq_bytes(b"abc", b"abc"));
    assert!(!eq_bytes(b"abc", b"abd"));
    assert!(!eq_bytes(b"abc", b"ab"));
    assert!(eq_bytes(b"", b""));
}
