use objc_bindgen::availability::{NSOperatingSystemVersion, OSVersions, OS};
use objc_bindgen::version::Version;

#[test]
fn one_component_defaults_minor_and_patch() {
    assert_eq!(Version::parse(b"10"), Some(Version { major: 10, minor: 0, patch: 0 }));
}

#[test]
fn two_components_default_patch() {
    assert_eq!(Version::parse(b"10.1"), Some(Version { major: 10, minor: 1, patch: 0 }));
}

#[test]
fn three_components_parse_exactly() {
    assert_eq!(Version::parse(b"12.0.1"), Some(Version { major: 12, minor: 0, patch: 1 }));
}

#[test]
fn four_components_are_rejected() {
    assert_eq!(Version::parse(b"1.2.3.4"), None);
}

#[test]
fn empty_and_trailing_dot_are_rejected() {
    assert_eq!(Version::parse(b""), None);
    assert_eq!(Version::parse(b"10."), None);
    assert_eq!(Version::parse(b".5"), None);
}

#[test]
fn non_numeric_components_are_rejected() {
    assert_eq!(Version::parse(b"a.1"), None);
    assert_eq!(Version::parse(b"10.x"), None);
    assert_eq!(Version::parse(b"10.-1"), None);
}

#[test]
fn overflowing_component_is_rejected() {
    assert_eq!(Version::parse(b"99999999999999999999"), None);
    // the largest representable component still parses
    assert_eq!(
        Version::parse(b"9223372036854775807"),
        Some(Version { major: 9223372036854775807, minor: 0, patch: 0 })
    );
    assert_eq!(Version::parse(b"9223372036854775808"), None);
}

#[test]
fn leading_zeros_are_numeric() {
    assert_eq!(Version::parse(b"010.007"), Some(Version { major: 10, minor: 7, patch: 0 }));
}

#[test]
fn atleast_is_lexicographic() {
    let live = NSOperatingSystemVersion { major: 10, minor: 15, patch: 3 };
    assert!(live.atleast(10, 15, 3));
    assert!(live.atleast(10, 15, 2));
    assert!(live.atleast(10, 14, 99));
    assert!(live.atleast(9, 99, 99));
    assert!(!live.atleast(10, 15, 4));
    assert!(!live.atleast(10, 16, 0));
    assert!(!live.atleast(11, 0, 0));
    assert_eq!(live.as_tuple(), (10, 15, 3));
}

#[test]
fn supported_is_guard_over_declared_minimum() {
    let mut map = OSVersions::new();
    let displaced = map.insert(OS::macOS, Version { major: 10, minor: 9, patch: 0 });
    assert_eq!(displaced, None);
    let ok = NSOperatingSystemVersion { major: 10, minor: 9, patch: 0 };
    let newer = NSOperatingSystemVersion { major: 11, minor: 0, patch: 0 };
    let older = NSOperatingSystemVersion { major: 10, minor: 8, patch: 9 };
    assert!(map.supported(OS::macOS, &ok));
    assert!(map.supported(OS::macOS, &newer));
    assert!(!map.supported(OS::macOS, &older));
    // an OS with no declared entry is unsupported whatever the live version
    assert!(!map.supported(OS::iOS, &newer));
}

#[test]
fn violation_reports_the_unmet_minimum() {
    let mut map = OSVersions::new();
    map.insert(OS::iOS, Version { major: 13, minor: 2, patch: 0 });
    let older = NSOperatingSystemVersion { major: 13, minor: 1, patch: 9 };
    let newer = NSOperatingSystemVersion { major: 13, minor: 2, patch: 0 };
    assert_eq!(map.violation(OS::iOS, &older), Some(Version { major: 13, minor: 2, patch: 0 }));
    assert_eq!(map.violation(OS::iOS, &newer), None);
    assert_eq!(map.violation(OS::macOS, &older), None);
}

#[test]
fn insert_reports_displaced_entry() {
    let mut map = OSVersions::new();
    assert_eq!(map.insert(OS::iOS, Version { major: 2, minor: 0, patch: 0 }), None);
    assert_eq!(
        map.insert(OS::iOS, Version { major: 3, minor: 0, patch: 0 }),
        Some(Version { major: 2, minor: 0, patch: 0 })
    );
    assert!(map.has_entry(OS::iOS));
    assert!(!map.has_entry(OS::macOS));
}

#[test]
fn os_names_round_trip() {
    assert_eq!(OS::parse(b"ios"), Some(OS::iOS));
    assert_eq!(OS::parse(b"macos"), Some(OS::macOS));
    assert_eq!(OS::parse(b"windows"), None);
    assert_eq!(OS::parse(b"iOS"), None);
    assert_eq!(OS::iOS.as_str(), "ios");
    assert_eq!(OS::macOS.as_str(), "macos");
    assert_eq!(OS::iOS.name_bytes(), b"ios".to_vec());
    assert_eq!(OS::macOS.name_bytes(), b"macos".to_vec());
}

#[test]
fn declared_lists_present_oses() {
    let mut map = OSVersions::new();
    assert_eq!(map.declared(), Vec::<OS>::new());
    map.insert(OS::macOS, Version { major: 10, minor: 0, patch: 0 });
    assert_eq!(map.declared(), vec![OS::macOS]);
    map.insert(OS::iOS, Version { major: 2, minor: 0, patch: 0 });
    assert_eq!(map.declared(), vec![OS::iOS, OS::macOS]);
}
