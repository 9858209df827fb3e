use talpa::config_helpers::{
    add_rule, clear_password, ensure_dns, ensure_sp, ensure_tunnel, remove_rule,
    set_dns_enabled, set_system_proxy_enabled, set_tunnel_port,
};
use talpa::proxy_config::{
    Config, DnsConfig, ListenConfig, SshTunnelConfig, SystemProxyConfig, UpstreamConfig,
};

fn minimal_config() -> Config {
    Config {
        domains: vec![],
        ips: vec![],
        listen: ListenConfig { addr: "127.0.0.1".into(), port: 1080 },
        upstream: UpstreamConfig { addr: "127.0.0.1".into(), port: 10808 },
        ssh_tunnel: None,
        system_proxy: None,
        dns: None,
    }
}

#[test]
fn ensure_tunnel_creates_when_absent() {
    let mut c = minimal_config();
    let t = ensure_tunnel(&mut c);
    assert_eq!(t.ssh_port, 22);
    assert_eq!(t.local_port, 10808);
    assert!(t.password.is_none());
}

#[test]
fn ensure_tunnel_preserves_existing() {
    let mut c = minimal_config();
    c.ssh_tunnel = Some(SshTunnelConfig {
        user: "alice".into(),
        host: "proxy.test".into(),
        ssh_port: 2222,
        local_port: 9999,
        password: None,
    });
    let t = ensure_tunnel(&mut c);
    assert_eq!(t.host, "proxy.test");
    assert_eq!(t.ssh_port, 2222);
}

#[test]
fn ensure_sp_creates_when_absent() {
    let mut c = minimal_config();
    let sp = ensure_sp(&mut c);
    assert!(sp.enabled);
    assert!(sp.configure_npm);
}

#[test]
fn ensure_sp_preserves_existing() {
    let mut c = minimal_config();
    c.system_proxy = Some(SystemProxyConfig {
        enabled: false,
        configure_npm: false,
        configure_git: false,
        configure_curl: false,
    });
    let sp = ensure_sp(&mut c);
    assert!(!sp.enabled);
    assert!(!sp.configure_npm);
}

#[test]
fn ensure_dns_creates_when_absent() {
    let mut c = minimal_config();
    let d = ensure_dns(&mut c);
    assert_eq!(d.listen_port, 5300);
}

#[test]
fn ensure_dns_preserves_existing() {
    let mut c = minimal_config();
    c.dns = Some(DnsConfig {
        listen_port: 1053,
        upstream_dns: "1.1.1.1:53".into(),
        fallback_dns: "9.9.9.9:53".into(),
    });
    let d = ensure_dns(&mut c);
    assert_eq!(d.listen_port, 1053);
    assert_eq!(d.upstream_dns, "1.1.1.1:53");
}

#[test]
fn ensure_writes_through_to_the_config() {
    let mut c = minimal_config();
    ensure_tunnel(&mut c).host = "h.example".into();
    assert_eq!(c.ssh_tunnel.as_ref().unwrap().host, "h.example");
    assert_eq!(c.ssh_tunnel.as_ref().unwrap().user, "user");
}

#[test]
fn add_rule_trims_and_skips_duplicates_and_blanks() {
    let mut list: Vec<String> = vec![];
    assert!(add_rule(&mut list, "  **.example.com \n"));
    assert!(!add_rule(&mut list, "**.example.com"));
    assert!(!add_rule(&mut list, "   "));
    assert!(add_rule(&mut list, "10.0.0.0/8"));
    assert_eq!(list, vec!["**.example.com".to_string(), "10.0.0.0/8".to_string()]);
}

#[test]
fn remove_rule_removes_every_copy() {
    let mut list: Vec<String> = vec!["a".into(), "b".into(), "a".into()];
    remove_rule(&mut list, "a");
    assert_eq!(list, vec!["b".to_string()]);
    remove_rule(&mut list, "zzz");
    assert_eq!(list, vec!["b".to_string()]);
}

#[test]
fn tunnel_port_moves_upstream_too() {
    let mut c = minimal_config();
    set_tunnel_port(&mut c, 2000);
    assert_eq!(c.upstream.port, 2000);
    assert_eq!(c.ssh_tunnel.as_ref().unwrap().local_port, 2000);
    assert_eq!(c.ssh_tunnel.as_ref().unwrap().ssh_port, 22);
}

#[test]
fn section_switches_keep_or_drop_settings() {
    let mut c = minimal_config();
    set_system_proxy_enabled(&mut c, true);
    assert!(c.system_proxy.unwrap().configure_git);
    c.system_proxy.as_mut().unwrap().configure_git = false;
    set_system_proxy_enabled(&mut c, true);
    assert!(!c.system_proxy.unwrap().configure_git);
    set_system_proxy_enabled(&mut c, false);
    assert!(c.system_proxy.is_none());

    set_dns_enabled(&mut c, true);
    assert_eq!(c.dns.as_ref().unwrap().listen_port, 5300);
    set_dns_enabled(&mut c, false);
    assert!(c.dns.is_none());
}

#[test]
fn clear_password_drops_only_the_password() {
    let mut c = minimal_config();
    c.ssh_tunnel = Some(SshTunnelConfig {
        user: "bob".into(),
        host: "h".into(),
        ssh_port: 22,
        local_port: 1,
        password: Some("pw".into()),
    });
    clear_password(&mut c);
    let t = c.ssh_tunnel.as_ref().unwrap();
    assert!(t.password.is_none());
    assert_eq!(t.user, "bob");
    let mut empty = minimal_config();
    clear_password(&mut empty);
    assert!(empty.ssh_tunnel.is_none());
}

#[test]
fn remove_after_add_restores_list() {
    let base = vec!["a.test".to_string(), "b.test".to_string()];
    for entry in ["  c.test ", "a.test", "   "] {
        let mut added = base.clone();
        add_rule(&mut added, entry);
        remove_rule(&mut added, entry.trim());
        let mut direct = base.clone();
        remove_rule(&mut direct, entry.trim());
        assert_eq!(added, direct);
    }
}
