use pieeg_local_bridge::update::{
    check_for_update, is_newer_version, release_url, user_agent, Release,
};

fn release(tag: &str) -> Release {
    Release { tag_name: tag.to_string(), html_url: "https://page".to_string() }
}

#[test]
fn test_version_comparison() {
    assert!(is_newer_version("0.1.0", "0.1.1"));
    assert!(is_newer_version("0.1.9", "0.2.0"));
    assert!(is_newer_version("0.2.0", "1.0.0"));
    assert!(!is_newer_version("0.2.0", "0.1.9"));
    assert!(!is_newer_version("1.0.0", "1.0.0"));
}

#[test]
fn versions_compare_by_number() {
    assert!(is_newer_version("0.9.0", "0.10.0"));
    assert!(!is_newer_version("0.10.0", "0.9.0"));
    assert!(is_newer_version("1.0", "1.0.0"));
    assert!(is_newer_version("", "0"));
    assert!(!is_newer_version("0", ""));
}

#[test]
fn parts_that_are_no_numbers_are_passed_over() {
    assert!(!is_newer_version("0.2", "0.2.0-beta"));
    assert!(!is_newer_version("0.2.0", "0.2.x"));
    assert!(is_newer_version("0.2", "0.x.2.1"));
    assert!(!is_newer_version("1", "4294967296"));
    assert!(is_newer_version("1", "4294967295"));
    assert!(is_newer_version("1", "+2"));
}

#[test]
fn order_of_versions_is_transitive() {
    let versions = ["0.1", "0.1.0", "0.2", "0.10", "1", "1.0.0"];
    for (i, a) in versions.iter().enumerate() {
        for (j, b) in versions.iter().enumerate() {
            assert_eq!(is_newer_version(a, b), i < j, "{a} {b}");
        }
    }
}

#[test]
fn newer_release_is_offered() {
    assert_eq!(
        check_for_update("0.1.2", release("v0.1.3")),
        Some(("v0.1.3".to_string(), "https://page".to_string()))
    );
    assert_eq!(
        check_for_update("0.1.2", release("0.2.0")),
        Some(("0.2.0".to_string(), "https://page".to_string()))
    );
}

#[test]
fn same_or_older_release_is_not_offered() {
    assert_eq!(check_for_update("0.1.3", release("v0.1.3")), None);
    assert_eq!(check_for_update("0.1.3", release("v0.1.2")), None);
    // Only one `v` is taken off, and `v1` is no number.
    assert_eq!(check_for_update("0.1.3", release("vv1.0.0")), None);
    assert_eq!(check_for_update("0.1.3", release("")), None);
}

#[test]
fn release_is_asked_for_under_the_name_of_the_bridge() {
    assert_eq!(
        release_url(),
        "https://api.github.com/repos/pieeg-club/PiEEG-local-bridge/releases/latest"
    );
    assert_eq!(user_agent("0.1.0"), "PiEEG-Local-Bridge/0.1.0");
}
