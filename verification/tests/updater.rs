use talpa::updater::{github_api_url, is_newer, parse_semver};

#[test]
fn updater_newer_version_detected() {
    assert!(is_newer("1.0.0", "v1.0.1"));
    assert!(is_newer("1.0.0", "v1.1.0"));
    assert!(is_newer("1.0.0", "v2.0.0"));
}

#[test]
fn updater_same_or_older_not_newer() {
    assert!(!is_newer("1.0.1", "v1.0.1"));
    assert!(!is_newer("1.0.1", "v1.0.0"));
}

#[test]
fn updater_github_api_url_from_full_url() {
    assert_eq!(
        github_api_url("https://github.com/user/talpa"),
        "https://api.github.com/repos/user/talpa/releases/latest"
    );
}

#[test]
fn updater_rejects_suffixed_patch() {
    assert_eq!(parse_semver("1.2.3-rc1"), None);
    assert_eq!(parse_semver("v1.2.3"), Some((1, 2, 3)));
    assert_eq!(
        github_api_url("http://github.com/user/talpa"),
        "https://api.github.com/repos/http://github.com/user/talpa/releases/latest"
    );
}
