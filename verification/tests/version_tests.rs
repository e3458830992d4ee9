use lunaris::version::{compare_versions, is_newer_version};

#[test]
fn versions_compare_part_by_part() {
    assert!(compare_versions("1.2.10", "1.2.9"));
    assert!(!compare_versions("1.2.9", "1.2.10"));
    assert!(!compare_versions("1.2", "1.2.0"));
    assert!(compare_versions("1.2.1", "1.2"));
    assert!(!compare_versions("1.2.3", "1.2.3"));
    assert!(compare_versions("2.x", "1.9"));
    assert!(!compare_versions("1.x", "1.0"));
    assert!(compare_versions("+2", "1"));
}

#[test]
fn newer_release_ignores_leading_v() {
    assert!(is_newer_version("0.1.0", "v0.2.0"));
    assert!(!is_newer_version("v0.2.0", "0.2.0"));
    assert!(is_newer_version("vv1.0", "1.0.1"));
    assert!(!is_newer_version("1.0.1", "1.0.0"));
}

#[test]
fn trailing_zero_parts_change_no_comparison() {
    assert!(!compare_versions("1.2", "1.2.0"));
    assert!(!compare_versions("1.2.0", "1.2"));
    assert!(!compare_versions("1.2.0.0", "1.2"));
    assert!(compare_versions("1.3", "1.2.0"));
    assert!(compare_versions("1.3.0", "1.2"));
    assert!(!compare_versions("1.2.x", "1.2"));
}
