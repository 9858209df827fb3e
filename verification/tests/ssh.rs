use talpa::config::Config;
use talpa::proxy_config::SshTunnelConfig;
use talpa::ssh::{restarts, tunnel_args, Proxy, ReadyStep, TunnelEvent};

#[test]
fn ssh_args_forward_the_socks_port() {
    let mut cfg = Config::default();
    cfg.socks.port = 1081;
    cfg.ssh.target = "me@bastion".to_string();
    assert_eq!(
        Proxy::ssh_args(&cfg),
        vec![
            "-D", "1081", "-N", "-o", "BatchMode=yes", "-o", "StrictHostKeyChecking=no", "-o",
            "ExitOnForwardFailure=yes", "me@bastion",
        ]
    );
}

#[test]
fn readiness_poll_decisions() {
    assert_eq!(Proxy::ready_step(true, false, false), ReadyStep::Ready);
    assert_eq!(Proxy::ready_step(false, true, true), ReadyStep::Retry);
    assert_eq!(Proxy::ready_step(false, true, false), ReadyStep::SshExited);
    assert_eq!(Proxy::ready_step(false, false, true), ReadyStep::TimedOut);
    assert_eq!(Proxy::ready_step(false, false, false), ReadyStep::TimedOut);
}

fn tunnel(password: Option<&str>) -> SshTunnelConfig {
    SshTunnelConfig {
        user: "alice".into(),
        host: "ssh.example.com".into(),
        ssh_port: 2222,
        local_port: 10808,
        password: password.map(|p| p.to_string()),
    }
}

#[test]
fn tunnel_args_with_key_auth_disable_prompts() {
    assert_eq!(
        tunnel_args(&tunnel(None)),
        vec![
            "-D", "127.0.0.1:10808", "-N", "-o", "ExitOnForwardFailure=yes", "-o",
            "ServerAliveInterval=30", "-o", "ServerAliveCountMax=3", "-o", "ConnectTimeout=10",
            "-o", "StrictHostKeyChecking=accept-new", "-p", "2222", "alice@ssh.example.com", "-o",
            "BatchMode=yes",
        ]
    );
}

#[test]
fn tunnel_args_with_password_keep_prompts() {
    let args = tunnel_args(&tunnel(Some("pw")));
    assert_eq!(args.len(), 16);
    assert_eq!(args.last().map(|s| s.as_str()), Some("alice@ssh.example.com"));
    assert!(!args.iter().any(|a| a == "BatchMode=yes"));
}

#[test]
fn tunnel_restarts_unless_shut_down() {
    for ev in [TunnelEvent::SpawnFailed, TunnelEvent::PortTimeout, TunnelEvent::Exited] {
        assert!(restarts(ev, false));
        assert!(!restarts(ev, true));
    }
}
