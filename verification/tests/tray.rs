use talpa::controller::Status;
use talpa::config::{set_domain_enabled, Config, ConfigSlot};
use talpa::tray::{domain_items, NO_DOMAINS_LABEL, start_enabled, status_color, status_text, stop_enabled, update_item, version_label};
use talpa::update::UpdateStatus;

#[test]
fn status_presentation() {
    assert_eq!(status_color(Status::Running), (46, 204, 113));
    assert_eq!(status_color(Status::Stopped), (149, 165, 166));
    assert_eq!(status_text(Status::Processing), "Status: working…");
    assert!(start_enabled(Status::Error) && start_enabled(Status::Stopped));
    assert!(!start_enabled(Status::Running) && !start_enabled(Status::Processing));
    assert!(stop_enabled(Status::Running) && !stop_enabled(Status::Processing));
}

#[test]
fn update_item_presentation() {
    let avail = UpdateStatus::Available { version: "1.2.0".into(), url: "u".into() };
    assert_eq!(update_item(Some(&avail)), ("⬆ Update available: v1.2.0".to_string(), true));
    assert_eq!(update_item(Some(&UpdateStatus::UpToDate)), ("✓ Up to date".to_string(), false));
    assert_eq!(update_item(Some(&UpdateStatus::Failed)), ("Update check failed".to_string(), false));
    assert_eq!(update_item(None), ("Checking for updates…".to_string(), false));
    assert_eq!(version_label("0.3.1"), "Talpa v0.3.1");
}

#[test]
fn domain_items_follow_toggles() {
    let mut slot = ConfigSlot::new();
    let mut cfg = Config::default();
    cfg.domains = vec!["**.corp.test".into(), "a.test".into()];
    Config::load(&mut slot, Some(cfg));
    assert_eq!(
        domain_items(&slot),
        vec![("**.corp.test".to_string(), true), ("a.test".to_string(), true)]
    );
    set_domain_enabled(&mut slot, "a.test", false);
    assert_eq!(
        domain_items(&slot),
        vec![("**.corp.test".to_string(), true), ("a.test".to_string(), false)]
    );
    let mut empty = ConfigSlot::new();
    Config::load(&mut empty, None);
    assert!(domain_items(&empty).is_empty());
    assert_eq!(NO_DOMAINS_LABEL, "(none configured)");
}
