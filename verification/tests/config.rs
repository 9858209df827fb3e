use talpa::config::{config, domain_enabled, set_domain_enabled, Config, ConfigSlot, Socks};

#[test]
fn defaults_match_the_documented_values() {
    let cfg = Config::default();
    assert_eq!(cfg.socks.port, 1080);
    assert_eq!(cfg.tun.gateway, "10.0.0.1");
    assert_eq!(cfg.tun.address, "10.0.0.2");
    assert_eq!(cfg.tun.netmask, "255.255.255.0");
    assert_eq!(cfg.tun.mtu, 1500);
    assert_eq!(cfg.tun.min_ttl_secs, 60);
    assert_eq!(cfg.ssh.target, "user@192.168.0.1");
    assert_eq!(cfg.dns.listen_addr, "127.0.0.1:53");
    assert_eq!(cfg.dns.upstream_addr, "1.1.1.1:53");
    assert_eq!(cfg.dns.upstream_socks_addr, "8.8.8.8:53");
    assert!(cfg.domains.is_empty());
}

#[test]
fn socks_addr_formats_the_port() {
    assert_eq!(Socks { port: 1080 }.addr(), "127.0.0.1:1080");
    assert_eq!(Socks { port: 0 }.addr(), "127.0.0.1:0");
    assert_eq!(Socks { port: 65535 }.addr(), "127.0.0.1:65535");
}

#[test]
fn first_load_wins_and_missing_file_means_defaults() {
    let mut slot = ConfigSlot::new();
    Config::load(&mut slot, None);
    assert_eq!(config(&slot).socks.port, 1080);
    let mut other = Config::default();
    other.socks.port = 9;
    Config::load(&mut slot, Some(other));
    assert_eq!(config(&slot).socks.port, 1080);
}

#[test]
fn toggles_are_reported_and_cleared_by_reload() {
    let mut slot = ConfigSlot::new();
    let mut cfg = Config::default();
    cfg.domains = vec!["**.a.test".into(), "*.b.test".into()];
    Config::load(&mut slot, Some(cfg));
    assert!(domain_enabled(&slot, "**.a.test"));
    set_domain_enabled(&mut slot, "**.a.test", false);
    set_domain_enabled(&mut slot, "**.a.test", false);
    assert!(!domain_enabled(&slot, "**.a.test"));
    assert!(domain_enabled(&slot, "*.b.test"));
    set_domain_enabled(&mut slot, "**.a.test", true);
    assert!(domain_enabled(&slot, "**.a.test"));
    set_domain_enabled(&mut slot, "*.b.test", false);
    let mut fresh = Config::default();
    fresh.socks.port = 4000;
    Config::reload(&mut slot, Some(fresh));
    assert!(domain_enabled(&slot, "*.b.test"));
    assert_eq!(config(&slot).socks.port, 4000);
}
