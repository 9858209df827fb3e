use talpa::menubar::{apply_field, field_value, menu_texts, password_prompt, Field};
use talpa::proxy_config::{
    Config, DnsConfig, ListenConfig, SshTunnelConfig, SystemProxyConfig, UpstreamConfig,
};

fn bare() -> Config {
    Config {
        domains: vec!["a.test".into(), "**.b.test".into()],
        ips: vec![],
        listen: ListenConfig { addr: "127.0.0.1".into(), port: 1080 },
        upstream: UpstreamConfig { addr: "127.0.0.1".into(), port: 10808 },
        ssh_tunnel: None,
        system_proxy: None,
        dns: None,
    }
}

#[test]
fn texts_without_sections_show_defaults() {
    let m = menu_texts(&bare());
    assert_eq!(m.domains_title, "Domains (2)");
    assert_eq!(m.ips_title, "IP Rules (0)");
    assert_eq!(m.ssh_host, "Host: -");
    assert_eq!(m.ssh_user, "User: -");
    assert_eq!(m.ssh_password, "Set password...");
    assert!(!m.clear_password_enabled);
    assert_eq!(m.ssh_port, "SSH port: 22");
    assert_eq!(m.tunnel_port, "Tunnel port: 10808");
    assert!(!m.system_proxy_checked);
    assert!(m.npm_checked && m.git_checked && m.curl_checked);
    assert!(!m.dns_checked && !m.dns_items_enabled);
    assert_eq!(m.dns_listen, "Listen port: 5300");
    assert_eq!(m.dns_upstream, "Upstream DNS: 8.8.8.8:53");
    assert_eq!(m.dns_fallback, "Fallback DNS: 8.8.8.8:53");
    assert_eq!(m.upstream_addr, "Address: 127.0.0.1");
    assert_eq!(m.upstream_port, "Port: 10808");
}

#[test]
fn texts_with_sections() {
    let mut c = bare();
    c.ssh_tunnel = Some(SshTunnelConfig {
        user: "ann".into(),
        host: "h.example".into(),
        ssh_port: 2200,
        local_port: 9000,
        password: Some("pw".into()),
    });
    c.system_proxy = Some(SystemProxyConfig { enabled: true, configure_npm: false, configure_git: true, configure_curl: false });
    c.dns = Some(DnsConfig { listen_port: 53, upstream_dns: "1.1.1.1:53".into(), fallback_dns: "9.9.9.9:53".into() });
    let m = menu_texts(&c);
    assert_eq!(m.ssh_host, "Host: h.example");
    assert_eq!(m.ssh_password, "Password: ••••  (change...)");
    assert!(m.clear_password_enabled);
    assert_eq!(m.ssh_port, "SSH port: 2200");
    assert_eq!(m.tunnel_port, "Tunnel port: 9000");
    assert!(m.system_proxy_checked && !m.npm_checked && m.git_checked && !m.curl_checked);
    assert!(m.dns_checked && m.dns_items_enabled);
    assert_eq!(m.dns_listen, "Listen port: 53");
    assert_eq!(m.dns_fallback, "Fallback DNS: 9.9.9.9:53");
    assert_eq!(password_prompt(&c), "Password for ann@h.example:");
    assert_eq!(password_prompt(&bare()), "Password for user@host:");
}

#[test]
fn dialog_defaults() {
    let c = bare();
    assert_eq!(field_value(&c, Field::SshHost), "");
    assert_eq!(field_value(&c, Field::SshPort), "22");
    assert_eq!(field_value(&c, Field::TunnelPort), "10808");
    assert_eq!(field_value(&c, Field::DnsListen), "5300");
    assert_eq!(field_value(&c, Field::DnsUpstream), "8.8.8.8:53");
    assert_eq!(field_value(&c, Field::UpstreamPort), "10808");
}

#[test]
fn applying_fields() {
    let mut c = bare();
    assert!(apply_field(&mut c, Field::SshHost, "jump.example"));
    let t = c.ssh_tunnel.clone().unwrap();
    assert_eq!((t.host.as_str(), t.user.as_str(), t.ssh_port, t.local_port), ("jump.example", "user", 22, 10808));
    assert!(apply_field(&mut c, Field::TunnelPort, "2000"));
    assert_eq!(c.ssh_tunnel.as_ref().unwrap().local_port, 2000);
    assert_eq!(c.upstream.port, 2000);
    assert!(!apply_field(&mut c, Field::UpstreamPort, "70000"));
    assert!(!apply_field(&mut c, Field::SshPort, "x"));
    assert_eq!(c.upstream.port, 2000);
    assert!(apply_field(&mut c, Field::UpstreamPort, "+1081"));
    assert_eq!(c.upstream.port, 1081);
    assert!(apply_field(&mut c, Field::DnsFallback, "9.9.9.9:53"));
    let d = c.dns.clone().unwrap();
    assert_eq!((d.listen_port, d.upstream_dns.as_str(), d.fallback_dns.as_str()), (5300, "8.8.8.8:53", "9.9.9.9:53"));
    assert!(apply_field(&mut c, Field::UpstreamAddr, "10.0.0.9"));
    assert_eq!(c.upstream.addr, "10.0.0.9");
}

#[test]
fn applied_value_reads_back() {
    let mut c = bare();
    assert!(apply_field(&mut c, Field::SshUser, "deploy"));
    assert_eq!(field_value(&c, Field::SshUser), "deploy");
    assert!(apply_field(&mut c, Field::SshPort, "+0022"));
    assert_eq!(field_value(&c, Field::SshPort), "22");
    assert!(apply_field(&mut c, Field::DnsUpstream, "9.9.9.9:53"));
    assert_eq!(field_value(&c, Field::DnsUpstream), "9.9.9.9:53");
    assert!(apply_field(&mut c, Field::DnsListen, "53"));
    assert_eq!(field_value(&c, Field::DnsListen), "53");
}
