use talpa::paths::{
    config_dir, default_config_path, join, log_dir_inner, log_file, sudo_home, user_home, Os,
};

#[test]
fn documented_locations() {
    assert_eq!(
        config_dir(Os::MacOs, Some("/Users/ann"), None).as_deref(),
        Some("/Users/ann/Library/Application Support/talpa")
    );
    assert_eq!(
        log_dir_inner(Os::MacOs, Some("/Users/ann"), None).as_deref(),
        Some("/Users/ann/Library/Logs/talpa")
    );
    assert_eq!(config_dir(Os::Linux, Some("/home/bob"), None).as_deref(), Some("/home/bob/.config/talpa"));
    assert_eq!(
        log_dir_inner(Os::Linux, Some("/home/bob"), None).as_deref(),
        Some("/home/bob/.local/state/talpa")
    );
    assert_eq!(
        config_dir(Os::Windows, None, Some("C:\\Users\\c\\AppData\\Roaming")).as_deref(),
        Some("C:\\Users\\c\\AppData\\Roaming\\talpa")
    );
    assert_eq!(
        log_dir_inner(Os::Windows, None, Some("C:\\Users\\c\\AppData\\Local")).as_deref(),
        Some("C:\\Users\\c\\AppData\\Local\\talpa\\logs")
    );
}

#[test]
fn missing_environment_gives_no_directory() {
    assert_eq!(config_dir(Os::Linux, None, Some("x")), None);
    assert_eq!(config_dir(Os::Windows, Some("/home/x"), None), None);
    assert_eq!(log_dir_inner(Os::MacOs, None, None), None);
}

#[test]
fn config_path_falls_back_to_working_directory() {
    assert_eq!(default_config_path(Os::Linux, Some("/home/bob/.config/talpa")), "/home/bob/.config/talpa/config.yml");
    assert_eq!(default_config_path(Os::Linux, None), "config.yml");
    assert_eq!(log_file(Os::Windows, Some("D:\\logs")).as_deref(), Some("D:\\logs\\talpa.log"));
    assert_eq!(log_file(Os::MacOs, None), None);
}

#[test]
fn join_adds_one_separator() {
    assert_eq!(join(Os::Linux, "/a/", "b"), "/a/b");
    assert_eq!(join(Os::Linux, "/a", "b"), "/a/b");
    assert_eq!(join(Os::Linux, "", "b"), "b");
    assert_eq!(join(Os::Windows, "C:", "b"), "C:b");
    assert_eq!(join(Os::Windows, "C:\\", "b"), "C:\\b");
    assert_eq!(join(Os::Windows, "C:/x/", "b"), "C:/x/b");
}

#[test]
fn sudo_user_home_is_preferred_when_it_exists() {
    assert_eq!(sudo_home(Os::MacOs, Some("ann")).as_deref(), Some("/Users/ann"));
    assert_eq!(sudo_home(Os::Linux, Some("bob")).as_deref(), Some("/home/bob"));
    assert_eq!(sudo_home(Os::Linux, Some("root")), None);
    assert_eq!(sudo_home(Os::Linux, Some("")), None);
    assert_eq!(sudo_home(Os::Linux, None), None);
    assert_eq!(sudo_home(Os::Windows, Some("c")), None);
    assert_eq!(
        user_home(Some("/home/bob".into()), true, Some("/root".into())).as_deref(),
        Some("/home/bob")
    );
    assert_eq!(
        user_home(Some("/home/bob".into()), false, Some("/root".into())).as_deref(),
        Some("/root")
    );
    assert_eq!(user_home(None, false, None), None);
}
