use objc_bindgen::availability::OS;
use objc_bindgen::decl::{
    parse_decl, AttrInput, AttrShape, DeclError, DeclInput, MetaItem, MetaValue, ObjCAttr,
    ParamInput, ParamPat,
};
use objc_bindgen::version::Version;

fn name_value(name: &[u8], value: &[u8]) -> MetaItem {
    MetaItem::NameValue { name: name.to_vec(), value: MetaValue::Str(value.to_vec()) }
}

fn objc_attr(items: Vec<MetaItem>) -> AttrInput {
    AttrInput { is_objc: true, shape: AttrShape::List(items) }
}

fn ptr_param(name: &[u8]) -> ParamInput {
    ParamInput::Typed { pat: ParamPat::Named(name.to_vec()), is_pointer: true }
}

fn is_equal_attr() -> AttrInput {
    objc_attr(vec![
        name_value(b"selector", b"isEqual:"),
        name_value(b"macos", b"10"),
        name_value(b"ios", b"2"),
    ])
}

fn decl(attrs: Vec<AttrInput>, params: Vec<ParamInput>) -> DeclInput {
    DeclInput {
        ident: b"nsobj_is_equal".to_vec(),
        is_const: false,
        is_async: false,
        is_unsafe: false,
        has_abi: false,
        is_variadic: false,
        has_generics: false,
        attrs,
        params,
    }
}

#[test]
fn is_equal_declaration_parses() {
    let d = decl(vec![is_equal_attr()], vec![ptr_param(b"lhs"), ptr_param(b"rhs")]);
    let b = parse_decl(&d).unwrap();
    assert_eq!(b.ident, b"nsobj_is_equal".to_vec());
    assert_eq!(b.receiver_name, b"lhs".to_vec());
    assert_eq!(b.arg_names, vec![b"rhs".to_vec()]);
    assert_eq!(b.objc_meth_name.arg_count(), 2);
    assert_eq!(b.objc_meth_name.as_string(), b"isEqual:".to_vec());
    assert_eq!(b.versions.macos, Some(Version { major: 10, minor: 0, patch: 0 }));
    assert_eq!(b.versions.ios, Some(Version { major: 2, minor: 0, patch: 0 }));
}

#[test]
fn modifiers_are_rejected_in_order() {
    let mut d = decl(vec![is_equal_attr()], vec![ptr_param(b"lhs"), ptr_param(b"rhs")]);
    d.is_const = true;
    d.is_async = true;
    assert_eq!(parse_decl(&d).err(), Some(DeclError::ConstUnsupported));
    d.is_const = false;
    assert_eq!(parse_decl(&d).err(), Some(DeclError::AsyncUnsupported));
    d.is_async = false;
    d.is_unsafe = true;
    assert_eq!(parse_decl(&d).err(), Some(DeclError::ImplicitlyUnsafe));
    d.is_unsafe = false;
    d.has_abi = true;
    assert_eq!(parse_decl(&d).err(), Some(DeclError::CustomAbi));
    d.has_abi = false;
    d.has_generics = true;
    assert_eq!(parse_decl(&d).err(), Some(DeclError::GenericsUnsupported));
}

#[test]
fn variadic_fails_before_annotation_and_arity() {
    // no annotation at all and a wrong parameter count: the variadic error
    // still comes first
    let mut d = decl(vec![], vec![]);
    d.is_variadic = true;
    assert_eq!(parse_decl(&d).err(), Some(DeclError::VariadicUnsupported));
}

#[test]
fn missing_annotation_is_rejected() {
    let d = decl(vec![], vec![ptr_param(b"lhs"), ptr_param(b"rhs")]);
    assert_eq!(parse_decl(&d).err(), Some(DeclError::MissingObjcAttr));
}

#[test]
fn non_objc_attributes_do_not_count() {
    let other = AttrInput { is_objc: false, shape: AttrShape::NotList };
    let d = decl(
        vec![other, is_equal_attr()],
        vec![ptr_param(b"lhs"), ptr_param(b"rhs")],
    );
    assert!(parse_decl(&d).is_ok());
}

#[test]
fn duplicate_annotation_is_rejected() {
    let d = decl(
        vec![is_equal_attr(), is_equal_attr()],
        vec![ptr_param(b"lhs"), ptr_param(b"rhs")],
    );
    assert_eq!(parse_decl(&d).err(), Some(DeclError::DuplicateObjcAttr));
}

#[test]
fn arity_mismatch_names_both_counts() {
    let d = decl(
        vec![is_equal_attr()],
        vec![ptr_param(b"lhs"), ptr_param(b"rhs"), ptr_param(b"extra")],
    );
    assert_eq!(
        parse_decl(&d).err(),
        Some(DeclError::ArityMismatch { selector_args: 2, declared_args: 3 })
    );
    let d = decl(vec![is_equal_attr()], vec![ptr_param(b"lhs")]);
    assert_eq!(
        parse_decl(&d).err(),
        Some(DeclError::ArityMismatch { selector_args: 2, declared_args: 1 })
    );
}

#[test]
fn self_style_receiver_is_rejected() {
    let d = decl(vec![is_equal_attr()], vec![ParamInput::Receiver, ptr_param(b"rhs")]);
    assert_eq!(parse_decl(&d).err(), Some(DeclError::SelfReceiverUnsupported));
}

#[test]
fn destructured_parameter_is_rejected() {
    let d = decl(
        vec![is_equal_attr()],
        vec![
            ptr_param(b"lhs"),
            ParamInput::Typed { pat: ParamPat::Destructured, is_pointer: true },
        ],
    );
    assert_eq!(parse_decl(&d).err(), Some(DeclError::DestructuringUnsupported));
}

#[test]
fn non_pointer_receiver_is_rejected() {
    let d = decl(
        vec![is_equal_attr()],
        vec![
            ParamInput::Typed { pat: ParamPat::Named(b"lhs".to_vec()), is_pointer: false },
            ptr_param(b"rhs"),
        ],
    );
    assert_eq!(parse_decl(&d).err(), Some(DeclError::ReceiverNotPointer));
}

#[test]
fn inner_attribute_is_rejected() {
    let d = decl(
        vec![AttrInput { is_objc: true, shape: AttrShape::Inner }],
        vec![ptr_param(b"lhs"), ptr_param(b"rhs")],
    );
    assert_eq!(parse_decl(&d).err(), Some(DeclError::ExpectedOuterAttr));
}

#[test]
fn non_list_attribute_is_rejected() {
    let d = decl(
        vec![AttrInput { is_objc: true, shape: AttrShape::NotList }],
        vec![ptr_param(b"lhs"), ptr_param(b"rhs")],
    );
    assert_eq!(parse_decl(&d).err(), Some(DeclError::ExpectedOuterAttr));
}

#[test]
fn annotation_needs_selector_and_a_version() {
    let d = decl(
        vec![objc_attr(vec![name_value(b"selector", b"isEqual:")])],
        vec![ptr_param(b"lhs"), ptr_param(b"rhs")],
    );
    assert_eq!(parse_decl(&d).err(), Some(DeclError::ExpectedSelectorAndVersion));
}

#[test]
fn first_item_must_be_the_selector() {
    let d = decl(
        vec![objc_attr(vec![
            name_value(b"macos", b"10"),
            name_value(b"selector", b"isEqual:"),
        ])],
        vec![ptr_param(b"lhs"), ptr_param(b"rhs")],
    );
    assert_eq!(parse_decl(&d).err(), Some(DeclError::ExpectedSelector));
}

#[test]
fn selector_value_must_be_a_string_literal() {
    let d = decl(
        vec![objc_attr(vec![
            MetaItem::NameValue { name: b"selector".to_vec(), value: MetaValue::OtherLit },
            name_value(b"macos", b"10"),
        ])],
        vec![ptr_param(b"lhs"), ptr_param(b"rhs")],
    );
    assert_eq!(parse_decl(&d).err(), Some(DeclError::ExpectedMethNameLit));
}

#[test]
fn malformed_message_name_is_rejected() {
    let d = decl(
        vec![objc_attr(vec![
            name_value(b"selector", b"foo:bar"),
            name_value(b"macos", b"10"),
        ])],
        vec![ptr_param(b"lhs"), ptr_param(b"rhs")],
    );
    assert_eq!(parse_decl(&d).err(), Some(DeclError::InvalidMethName));
}

#[test]
fn unknown_os_key_is_rejected() {
    let d = decl(
        vec![objc_attr(vec![
            name_value(b"selector", b"isEqual:"),
            name_value(b"windows", b"10"),
        ])],
        vec![ptr_param(b"lhs"), ptr_param(b"rhs")],
    );
    assert_eq!(parse_decl(&d).err(), Some(DeclError::ExpectedOsName));
}

#[test]
fn malformed_version_is_rejected() {
    let d = decl(
        vec![objc_attr(vec![
            name_value(b"selector", b"isEqual:"),
            name_value(b"macos", b"1.2.3.4"),
        ])],
        vec![ptr_param(b"lhs"), ptr_param(b"rhs")],
    );
    assert_eq!(parse_decl(&d).err(), Some(DeclError::InvalidVersion));
    let d = decl(
        vec![objc_attr(vec![
            name_value(b"selector", b"isEqual:"),
            MetaItem::NameValue { name: b"macos".to_vec(), value: MetaValue::OtherLit },
        ])],
        vec![ptr_param(b"lhs"), ptr_param(b"rhs")],
    );
    assert_eq!(parse_decl(&d).err(), Some(DeclError::InvalidVersion));
}

#[test]
fn bare_availability_entry_is_rejected() {
    let d = decl(
        vec![objc_attr(vec![name_value(b"selector", b"isEqual:"), MetaItem::Other])],
        vec![ptr_param(b"lhs"), ptr_param(b"rhs")],
    );
    assert_eq!(parse_decl(&d).err(), Some(DeclError::ExpectedOsVersionPair));
}

#[test]
fn duplicate_os_key_is_rejected() {
    let d = decl(
        vec![objc_attr(vec![
            name_value(b"selector", b"isEqual:"),
            name_value(b"ios", b"1"),
            name_value(b"ios", b"2"),
        ])],
        vec![ptr_param(b"lhs"), ptr_param(b"rhs")],
    );
    assert_eq!(parse_decl(&d).err(), Some(DeclError::DuplicateOsKey(OS::iOS)));
}

#[test]
fn malformed_entry_wins_over_earlier_duplicate() {
    // every entry is converted before duplicates are checked, so the bad
    // trailing entry is reported even though a duplicate precedes it
    let d = decl(
        vec![objc_attr(vec![
            name_value(b"selector", b"isEqual:"),
            name_value(b"ios", b"1"),
            name_value(b"ios", b"2"),
            name_value(b"macos", b"x"),
        ])],
        vec![ptr_param(b"lhs"), ptr_param(b"rhs")],
    );
    assert_eq!(parse_decl(&d).err(), Some(DeclError::InvalidVersion));
}

#[test]
fn last_annotation_in_source_order_is_used() {
    // two annotations would be a duplicate; a malformed one later in source
    // order is found first because the scan runs from the last attribute
    let bad = objc_attr(vec![
        name_value(b"selector", b"broken name"),
        name_value(b"macos", b"10"),
    ]);
    let d = decl(
        vec![is_equal_attr(), bad],
        vec![ptr_param(b"lhs"), ptr_param(b"rhs")],
    );
    assert_eq!(parse_decl(&d).err(), Some(DeclError::InvalidMethName));
}

#[test]
fn objc_attribute_path_is_recognized() {
    assert!(ObjCAttr::is_objc(b"objc"));
    assert!(!ObjCAttr::is_objc(b"objc2"));
    assert!(!ObjCAttr::is_objc(b"inline"));
}
