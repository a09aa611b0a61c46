use objc_bindgen::selector::ObjCMethName;

#[test]
fn bare_name_has_one_argument() {
    let m = ObjCMethName::parse(b"alloc").unwrap();
    assert_eq!(m.arg_count(), 1);
    assert_eq!(m.as_string(), b"alloc".to_vec());
}

#[test]
fn one_colon_segment_has_two_arguments() {
    let m = ObjCMethName::parse(b"isEqual:").unwrap();
    assert_eq!(m.arg_count(), 2);
    assert_eq!(m.as_string(), b"isEqual:".to_vec());
}

#[test]
fn two_colon_segments_have_three_arguments() {
    let m = ObjCMethName::parse(b"initWithBytes:length:").unwrap();
    assert_eq!(m.arg_count(), 3);
    assert_eq!(m.as_string(), b"initWithBytes:length:".to_vec());
}

#[test]
fn three_colon_segments_have_four_arguments() {
    let m = ObjCMethName::parse(b"fooBar:with:and:").unwrap();
    assert_eq!(m.arg_count(), 4);
}

#[test]
fn empty_name_is_rejected() {
    assert!(ObjCMethName::parse(b"").is_none());
}

#[test]
fn bare_segment_after_colon_segment_is_rejected() {
    // a later segment is bare while an earlier one is colon-terminated
    assert!(ObjCMethName::parse(b"foo:bar").is_none());
}

#[test]
fn empty_segment_is_rejected() {
    assert!(ObjCMethName::parse(b"foo::").is_none());
    assert!(ObjCMethName::parse(b":").is_none());
    assert!(ObjCMethName::parse(b":foo:").is_none());
}

#[test]
fn non_identifier_segment_is_rejected() {
    assert!(ObjCMethName::parse(b"foo bar:").is_none());
    assert!(ObjCMethName::parse(b"9foo").is_none());
    assert!(ObjCMethName::parse(b"foo-bar:").is_none());
}

#[test]
fn underscores_and_digits_are_identifier_bytes() {
    let m = ObjCMethName::parse(b"_foo9:bar_2:").unwrap();
    assert_eq!(m.arg_count(), 3);
}

#[test]
fn canonical_string_reparses_to_same_argument_count() {
    for name in [
        b"alloc".as_slice(),
        b"isEqual:".as_slice(),
        b"initWithBytes:length:".as_slice(),
        b"dataWithBytes:length:".as_slice(),
    ] {
        let m = ObjCMethName::parse(name).unwrap();
        let canonical = m.as_string();
        assert_eq!(canonical, name.to_vec());
        let again = ObjCMethName::parse(&canonical).unwrap();
        assert_eq!(again.arg_count(), m.arg_count());
        assert_eq!(again.as_string(), canonical);
    }
}

#[test]
fn matches_canonical_compares_surface_form() {
    let m = ObjCMethName::parse(b"isEqual:").unwrap();
    assert!(m.matches_canonical(b"isEqual:"));
    assert!(!m.matches_canonical(b"isEqual"));
}
