use std::sync::Arc;
use talpa::proxy_service::{
    indicator, loop_step, manages_system_proxy, on_start_cancelled, on_started, on_stopped,
    settle_startup, start_plan, startup_step, status_code, toggle_command, wait_step, Cmd, Next, ProxyState,
    StartPlan, WaitStep,
};
use talpa::proxy_config::{
    Config, DnsConfig, ListenConfig, SshTunnelConfig, SystemProxyConfig, UpstreamConfig,
};

fn cfg() -> Config {
    Config {
        domains: vec![],
        ips: vec![],
        listen: ListenConfig { addr: "127.0.0.1".into(), port: 1080 },
        upstream: UpstreamConfig { addr: "127.0.0.1".into(), port: 10808 },
        ssh_tunnel: None,
        system_proxy: None,
        dns: None,
    }
}

#[test]
fn status_codes_and_toggle() {
    let mut s = ProxyState::new();
    assert_eq!(status_code(s), 0);
    assert_eq!(indicator(0).1, "Start");
    assert!(matches!(toggle_command(s), Cmd::Start));
    s.connecting = true;
    assert_eq!(status_code(s), 1);
    assert!(matches!(toggle_command(s), Cmd::Stop));
    s.tunnel_required = true;
    let s = on_started(s);
    assert_eq!(status_code(s), 2);
    assert_eq!(indicator(2).0, "● Proxy: Tunnel down");
    let mut up = s;
    up.tunnel_up = true;
    assert_eq!(status_code(up), 3);
    assert_eq!(indicator(3), ("● Proxy: Running", "Stop", (52, 199, 89)));
    assert_eq!(status_code(on_stopped(up)), 0);
    let c = on_start_cancelled(ProxyState { running: false, connecting: true, tunnel_up: false, tunnel_required: true });
    assert!(!c.connecting && !c.tunnel_required);
}

#[test]
fn command_loop_reactions() {
    let st = loop_step(true, Cmd::Start);
    assert!(!st.stop_running && matches!(st.next, Next::Idle));
    let st = loop_step(false, Cmd::Start);
    assert!(matches!(st.next, Next::Start));
    let st = loop_step(true, Cmd::Stop);
    assert!(st.stop_running && matches!(st.next, Next::Idle));
    let st = loop_step(false, Cmd::Quit);
    assert!(!st.stop_running && matches!(st.next, Next::Exit));
    let st = loop_step(true, Cmd::Reload(Arc::new(cfg())));
    assert!(st.stop_running && matches!(st.next, Next::StartWith(_)));

    let s = startup_step(false, &Some(Cmd::Stop));
    assert!(s.send_cancel && s.cancelled && !s.quit);
    let s = startup_step(true, &Some(Cmd::Stop));
    assert!(!s.send_cancel && s.cancelled);
    let s = startup_step(true, &None);
    assert!(!s.send_cancel && s.quit);
    let s = startup_step(false, &Some(Cmd::Start));
    assert!(!s.send_cancel && !s.quit && !s.cancelled);
}

#[test]
fn system_proxy_management() {
    let mut c = cfg();
    assert!(!manages_system_proxy(&c));
    c.system_proxy = Some(SystemProxyConfig { enabled: false, configure_npm: true, configure_git: true, configure_curl: true });
    assert!(!manages_system_proxy(&c));
    c.system_proxy = Some(SystemProxyConfig { enabled: true, configure_npm: true, configure_git: true, configure_curl: true });
    assert!(manages_system_proxy(&c));
}

#[test]
fn start_plan_follows_sections() {
    let mut c = cfg();
    assert_eq!(start_plan(&c), StartPlan { tunnel: false, system_proxy: false, dns: false });
    c.ssh_tunnel = Some(SshTunnelConfig {
        user: "u".into(),
        host: "h".into(),
        ssh_port: 22,
        local_port: 10808,
        password: None,
    });
    c.system_proxy = Some(SystemProxyConfig { enabled: false, configure_npm: true, configure_git: true, configure_curl: true });
    c.dns = Some(DnsConfig { listen_port: 5300, upstream_dns: "a".into(), fallback_dns: "b".into() });
    assert_eq!(start_plan(&c), StartPlan { tunnel: true, system_proxy: false, dns: true });
}

#[test]
fn tunnel_wait_steps() {
    assert_eq!(wait_step(0, true, true), WaitStep::Cancelled);
    assert_eq!(wait_step(0, false, true), WaitStep::Up);
    assert_eq!(wait_step(0, false, false), WaitStep::Retry);
    assert_eq!(wait_step(18, false, false), WaitStep::Retry);
    assert_eq!(wait_step(19, false, false), WaitStep::GaveUp);
    assert_eq!(wait_step(19, false, true), WaitStep::Up);
}

#[test]
fn stop_while_connecting_ends_not_running() {
    let mut s = ProxyState::new();
    s.connecting = true;
    let step = startup_step(false, &Some(Cmd::Stop));
    assert!(step.send_cancel && step.cancelled && !step.quit);
    // a later Start is ignored and the start stays cancelled
    let later = startup_step(step.cancelled, &Some(Cmd::Start));
    assert!(later.cancelled && !later.send_cancel);
    // the service came up anyway: it is stopped again and nothing runs
    let up = on_started(s);
    let end = settle_startup(up, later.cancelled, true);
    assert!(!end.keep && end.tear_down);
    assert!(!end.state.running && !end.state.connecting && !end.state.tunnel_up);
    assert_eq!(status_code(end.state), 0);
    // it never came up
    let end = settle_startup(s, true, false);
    assert!(!end.keep && !end.tear_down && !end.state.connecting);
}

#[test]
fn uncancelled_start_is_kept() {
    let up = on_started(ProxyState::new());
    let end = settle_startup(up, false, true);
    assert!(end.keep && !end.tear_down && end.state.running);
    let quit = startup_step(false, &Some(Cmd::Quit));
    assert!(quit.send_cancel && quit.cancelled && quit.quit);
    let again = startup_step(true, &None);
    assert!(!again.send_cancel && again.quit);
}
