use talpa::controller::{Controller, Status};

#[test]
fn start_settles_running_or_error() {
    let mut c: Controller<u32> = Controller::new("cfg.yml".into());
    assert_eq!(c.status(), Status::Stopped);
    assert_eq!(c.config_path(), "cfg.yml");
    assert!(c.start(7));
    assert_eq!(c.status(), Status::Processing);
    assert!(!c.start(8));
    assert_eq!(c.stop(), None);
    c.on_started(true);
    assert!(c.is_running());
    assert!(!c.start(9));
    assert_eq!(c.stop(), Some(7));
    assert_eq!(c.status(), Status::Processing);
    c.on_stopped();
    assert_eq!(c.status(), Status::Stopped);

    assert!(c.start(1));
    c.on_started(false);
    assert_eq!(c.status(), Status::Error);
    assert_eq!(c.stop(), None);
    assert_eq!(c.status(), Status::Stopped);
}

#[test]
fn reload_restarts_a_running_pipeline() {
    let mut c: Controller<u32> = Controller::new("p".into());
    assert!(c.start(1));
    c.on_started(true);
    let plan = c.begin_reload().unwrap();
    assert!(plan.was_running);
    assert_eq!(plan.teardown, Some(1));
    c.finish_reload(plan.was_running, Some(2));
    assert!(c.is_running());
    assert_eq!(c.shutdown(), Some(2));

    let mut d: Controller<u32> = Controller::new("p".into());
    let plan = d.begin_reload().unwrap();
    assert!(!plan.was_running);
    d.finish_reload(plan.was_running, None);
    assert_eq!(d.status(), Status::Stopped);

    let mut e: Controller<u32> = Controller::new("p".into());
    assert!(e.start(3));
    assert!(e.begin_reload().is_none());
    e.on_started(true);
    let plan = e.begin_reload().unwrap();
    e.finish_reload(plan.was_running, None);
    assert_eq!(e.status(), Status::Error);
}
