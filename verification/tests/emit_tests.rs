use objc_bindgen::availability::{NSOperatingSystemVersion, OS};
use objc_bindgen::decl::{
    parse_decl, AttrInput, AttrShape, DeclInput, MetaItem, MetaValue, ParamInput, ParamPat,
};
use objc_bindgen::emit::{
    availability_message, calculate_hash, class_ref_symbol, class_symbol, emit_artifacts,
    emit_block, i64_to_decimal, sel_func_name, supports_func_name, u64_to_decimal,
    CompileTimeStrategy, Resolution, RuntimeStrategy, TokenStrategy,
};
use objc_bindgen::framework::{parse_msg_wrappers, ForeignItem};
use objc_bindgen::selector::ObjCMethName;
use objc_bindgen::version::Version;

#[test]
fn decimal_rendering_is_exact() {
    assert_eq!(u64_to_decimal(0), b"0".to_vec());
    assert_eq!(u64_to_decimal(7), b"7".to_vec());
    assert_eq!(u64_to_decimal(1234567890), b"1234567890".to_vec());
    assert_eq!(u64_to_decimal(u64::MAX), b"18446744073709551615".to_vec());
    assert_eq!(i64_to_decimal(-5), b"-5".to_vec());
    assert_eq!(i64_to_decimal(0), b"0".to_vec());
    assert_eq!(i64_to_decimal(i64::MIN), b"-9223372036854775808".to_vec());
}

#[test]
fn derived_function_names_are_prefixed() {
    assert_eq!(sel_func_name(b"nsobj_hash"), b"_sel_nsobj_hash".to_vec());
    assert_eq!(supports_func_name(b"nsobj_hash"), b"_supports_nsobj_hash".to_vec());
}

#[test]
fn hash_is_deterministic_within_a_process() {
    let a = calculate_hash(b"isEqual:loc1");
    let b = calculate_hash(b"isEqual:loc1");
    assert_eq!(a, b);
}

#[test]
fn cached_resolution_embeds_symbols_and_literal() {
    let m = ObjCMethName::parse(b"isEqual:").unwrap();
    let r = CompileTimeStrategy.resolve(&m, b"src/a.rs:3");
    match r {
        Resolution::Cached { meth_symbol, ref_symbol, selector_literal } => {
            assert_eq!(selector_literal, b"isEqual:\0".to_vec());
            let meth_prefix = b"\x01L_OBJC_METH_VAR_NAME_.__objc_util_meth.";
            let ref_prefix = b"\x01L_OBJC_SELECTOR_REFERENCES_.__objc_util_sel.";
            assert!(meth_symbol.starts_with(meth_prefix));
            assert!(ref_symbol.starts_with(ref_prefix));
            assert!(meth_symbol.ends_with(b".isEqual:"));
            assert!(ref_symbol.ends_with(b".isEqual:"));
            // between the prefix and the trailing `.name` stands the decimal
            // hash id: nonempty, digits only, the same for both symbols
            let id_of = |sym: &[u8], prefix: &[u8]| {
                let middle = &sym[prefix.len()..sym.len() - b".isEqual:".len()];
                assert!(!middle.is_empty());
                assert!(middle.iter().all(|b| (48..=57).contains(b)));
                middle.to_vec()
            };
            let meth_id = id_of(&meth_symbol, meth_prefix);
            let ref_id = id_of(&ref_symbol, ref_prefix);
            assert_eq!(meth_id, ref_id);
            assert_eq!(meth_id, u64_to_decimal(calculate_hash(b"isEqual:src/a.rs:3")));
        },
        Resolution::Lookup { .. } => panic!("cached strategy produced a lookup"),
    }
}

#[test]
fn both_strategies_carry_the_same_selector() {
    let m = ObjCMethName::parse(b"initWithBytes:length:").unwrap();
    let cached = CompileTimeStrategy.resolve(&m, b"locA");
    let looked_up = RuntimeStrategy.resolve(&m, b"locA");
    let cached_sel = match cached {
        Resolution::Cached { selector_literal, .. } => {
            let mut s = selector_literal.clone();
            let nul = s.pop();
            assert_eq!(nul, Some(0));
            s
        },
        Resolution::Lookup { .. } => panic!("cached strategy produced a lookup"),
    };
    let lookup_sel = match looked_up {
        Resolution::Lookup { selector } => selector,
        Resolution::Cached { .. } => panic!("runtime strategy produced a cached resolution"),
    };
    assert_eq!(cached_sel, lookup_sel);
    assert_eq!(lookup_sel, m.as_string());
}

#[test]
fn class_symbols_are_shaped_like_the_loader_expects() {
    assert_eq!(class_symbol(b"NSData"), b"\x01_OBJC_CLASS_$_NSData".to_vec());
    let r = class_ref_symbol(b"NSData", b"tests:1");
    assert!(r.starts_with(b"\x01L_OBJC_CLASSLIST_REFERENCES_$_."));
    assert!(r.ends_with(b".NSData"));
    // deterministic for the same name and location
    assert_eq!(r, class_ref_symbol(b"NSData", b"tests:1"));
}

#[test]
fn availability_message_is_exact() {
    let req = Version { major: 10, minor: 15, patch: 0 };
    let live = NSOperatingSystemVersion { major: 10, minor: 14, patch: 3 };
    let msg = availability_message(b"nsobj_hash", OS::macOS, &req, &live);
    assert_eq!(
        msg,
        b"`nsobj_hash` requires `macos 10.15.0` but found `10.14.3`".to_vec()
    );
}

#[test]
fn artifacts_carry_names_selector_and_versions() {
    let d = DeclInput {
        ident: b"nsobj_hash".to_vec(),
        is_const: false,
        is_async: false,
        is_unsafe: false,
        has_abi: false,
        is_variadic: false,
        has_generics: false,
        attrs: vec![AttrInput {
            is_objc: true,
            shape: AttrShape::List(vec![
                MetaItem::NameValue {
                    name: b"selector".to_vec(),
                    value: MetaValue::Str(b"hash".to_vec()),
                },
                MetaItem::NameValue {
                    name: b"macos".to_vec(),
                    value: MetaValue::Str(b"10".to_vec()),
                },
                MetaItem::NameValue {
                    name: b"ios".to_vec(),
                    value: MetaValue::Str(b"2".to_vec()),
                },
            ]),
        }],
        params: vec![ParamInput::Typed {
            pat: ParamPat::Named(b"obj".to_vec()),
            is_pointer: true,
        }],
    };
    let b = parse_decl(&d).unwrap();
    let a = emit_artifacts(&b, &RuntimeStrategy, b"here");
    assert_eq!(a.wrapper_name, b"nsobj_hash".to_vec());
    assert_eq!(a.sel_func_name, b"_sel_nsobj_hash".to_vec());
    assert_eq!(a.supports_func_name, b"_supports_nsobj_hash".to_vec());
    assert_eq!(a.selector, b"hash".to_vec());
    assert_eq!(a.versions.macos, Some(Version { major: 10, minor: 0, patch: 0 }));
    assert_eq!(a.versions.ios, Some(Version { major: 2, minor: 0, patch: 0 }));
    match a.resolution {
        Resolution::Lookup { selector } => assert_eq!(selector, b"hash".to_vec()),
        Resolution::Cached { .. } => panic!("runtime strategy produced a cached resolution"),
    }
}

#[test]
fn block_artifacts_follow_declaration_order() {
    let mk = |ident: &[u8], selector: &[u8]| DeclInput {
        ident: ident.to_vec(),
        is_const: false,
        is_async: false,
        is_unsafe: false,
        has_abi: false,
        is_variadic: false,
        has_generics: false,
        attrs: vec![AttrInput {
            is_objc: true,
            shape: AttrShape::List(vec![
                MetaItem::NameValue {
                    name: b"selector".to_vec(),
                    value: MetaValue::Str(selector.to_vec()),
                },
                MetaItem::NameValue {
                    name: b"macos".to_vec(),
                    value: MetaValue::Str(b"10".to_vec()),
                },
            ]),
        }],
        params: vec![ParamInput::Typed {
            pat: ParamPat::Named(b"obj".to_vec()),
            is_pointer: true,
        }],
    };
    let items = vec![
        ForeignItem::Fn(mk(b"nsobj_alloc", b"alloc")),
        ForeignItem::Fn(mk(b"nsobj_init", b"init")),
    ];
    let w = parse_msg_wrappers(&items).unwrap();
    let locs = vec![b"a:1".to_vec(), b"a:2".to_vec()];
    let arts = emit_block(&w, &RuntimeStrategy, &locs);
    assert_eq!(arts.len(), 2);
    assert_eq!(arts[0].wrapper_name, b"nsobj_alloc".to_vec());
    assert_eq!(arts[0].sel_func_name, b"_sel_nsobj_alloc".to_vec());
    assert_eq!(arts[1].supports_func_name, b"_supports_nsobj_init".to_vec());
    assert_eq!(arts[1].selector, b"init".to_vec());
}
