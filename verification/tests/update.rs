use talpa::update::{github_api_url, is_newer, parse_semver, release_status, UpdateStatus};

#[test]
fn update_newer_version_detected() {
    assert!(is_newer("1.0.0", "v1.0.1"));
    assert!(is_newer("1.0.0", "v1.1.0"));
    assert!(is_newer("1.0.0", "v2.0.0"));
}

#[test]
fn update_same_or_older_not_newer() {
    assert!(!is_newer("1.0.1", "v1.0.1"));
    assert!(!is_newer("1.0.1", "v1.0.0"));
    assert!(!is_newer("2.0.0", "v1.9.9"));
}

#[test]
fn patch_suffix_is_ignored() {
    assert_eq!(parse_semver("1.2.3-rc1"), Some((1, 2, 3)));
    assert!(!is_newer("1.2.3", "v1.2.3-rc1"));
}

#[test]
fn update_github_api_url_from_full_url() {
    assert_eq!(
        github_api_url("https://github.com/Emingy/talpa"),
        "https://api.github.com/repos/Emingy/talpa/releases/latest"
    );
}

#[test]
fn update_github_api_url_http_and_trailing_slash() {
    assert_eq!(
        github_api_url("http://github.com/a/b//"),
        "https://api.github.com/repos/a/b/releases/latest"
    );
}

#[test]
fn parse_semver_edge_cases() {
    assert_eq!(parse_semver("vv1.2.3+build"), Some((1, 2, 3)));
    assert_eq!(parse_semver("+1.2.3"), Some((1, 2, 3)));
    assert_eq!(parse_semver("1.2"), None);
    assert_eq!(parse_semver("1.2.3.4"), None);
    assert_eq!(parse_semver("1.x.3"), None);
    assert_eq!(parse_semver("4294967296.0.0"), None);
    assert_eq!(parse_semver("4294967295.0.0"), Some((4294967295, 0, 0)));
    assert!(!is_newer("garbage", "v9.9.9"));
}

#[test]
fn newer_is_irreflexive_asymmetric_transitive_on_samples() {
    assert!(!is_newer("1.2.3", "1.2.3"));
    assert!(is_newer("1.2.3", "1.3.0") && !is_newer("1.3.0", "1.2.3"));
    assert!(is_newer("1.2.3", "1.3.0") && is_newer("1.3.0", "2.0.0") && is_newer("1.2.3", "2.0.0"));
}

#[test]
fn release_status_outcomes() {
    assert!(matches!(release_status("1.0.0", "https://github.com/a/b", None, None), UpdateStatus::Failed));
    assert!(matches!(
        release_status("1.0.0", "https://github.com/a/b", Some("v1.0.0"), None),
        UpdateStatus::UpToDate
    ));
    match release_status("1.0.0", "https://github.com/a/b/", Some("v1.2.0"), None) {
        UpdateStatus::Available { version, url } => {
            assert_eq!(version, "1.2.0");
            assert_eq!(url, "https://github.com/a/b/releases/latest");
        }
        _ => panic!("expected an available update"),
    }
    match release_status("1.0.0", "r", Some("2.0.0"), Some("https://x/rel")) {
        UpdateStatus::Available { version, url } => {
            assert_eq!(version, "2.0.0");
            assert_eq!(url, "https://x/rel");
        }
        _ => panic!("expected an available update"),
    }
}
