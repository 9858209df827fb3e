use talpa::config::{set_domain_enabled, Config, ConfigSlot};
use talpa::dns::{
    domain_matches, frame_length, frame_message, get_addresses_from_response, match_domain,
    name_matches, Forwarder, Handler, Server, Upstream,
};
use talpa::ip::IpValue;

fn qname(name: &str) -> Vec<u8> {
    let mut out = Vec::new();
    for label in name.split('.') {
        out.push(label.len() as u8);
        out.extend_from_slice(label.as_bytes());
    }
    out.push(0);
    out
}

fn query(name: &str) -> Vec<u8> {
    let mut p = vec![0x12, 0x34, 0x01, 0x00, 0, 1, 0, 0, 0, 0, 0, 0];
    p.extend(qname(name));
    p.extend_from_slice(&[0, 1, 0, 1]);
    p
}

fn reply(name: &str) -> Vec<u8> {
    let mut p = vec![0x12, 0x34, 0x81, 0x80, 0, 1, 0, 3, 0, 0, 0, 0];
    p.extend(qname(name));
    p.extend_from_slice(&[0, 1, 0, 1]);
    // A 93.184.216.34 ttl 300
    p.extend_from_slice(&[0xc0, 0x0c, 0, 1, 0, 1, 0, 0, 0x01, 0x2c, 0, 4, 93, 184, 216, 34]);
    // CNAME (ignored)
    p.extend_from_slice(&[0xc0, 0x0c, 0, 5, 0, 1, 0, 0, 0, 10, 0, 2, 0xc0, 0x0c]);
    // AAAA 2001:db8::1 ttl 60
    p.extend_from_slice(&[0xc0, 0x0c, 0, 28, 0, 1, 0, 0, 0, 60, 0, 16]);
    p.extend_from_slice(&[0x20, 0x01, 0x0d, 0xb8, 0, 0, 0, 0, 0, 0, 0, 0, 0, 0, 0, 1]);
    p
}

fn slot(domains: &[&str]) -> ConfigSlot {
    let mut s = ConfigSlot::new();
    let mut c = Config::default();
    c.domains = domains.iter().map(|d| d.to_string()).collect();
    Config::load(&mut s, Some(c));
    s
}

#[test]
fn mask_kinds() {
    assert!(domain_matches("acme.test", "**.acme.test"));
    assert!(domain_matches("a.b.acme.test", "**.acme.test"));
    assert!(!domain_matches("notacme.test", "**.acme.test"));
    assert!(domain_matches("api.acme.test", "*.acme.test"));
    assert!(!domain_matches("x.api.acme.test", "*.acme.test"));
    assert!(!domain_matches("acme.test", "*.acme.test"));
    assert!(domain_matches("exact.com", "exact.com"));
    assert!(!domain_matches("www.exact.com", "exact.com"));
}

#[test]
fn query_names_match_enabled_masks_only() {
    let mut s = slot(&["**.Acme.test", "*.corp.test"]);
    assert!(match_domain(&s, &query("API.acme.test")));
    assert!(match_domain(&s, &query("x.corp.test")));
    assert!(!match_domain(&s, &query("y.x.corp.test")));
    assert!(!match_domain(&s, &[1, 2, 3]));
    assert!(name_matches(&s, "acme.test."));
    set_domain_enabled(&mut s, "**.Acme.test", false);
    assert!(!match_domain(&s, &query("api.acme.test")));
}

#[test]
fn reply_addresses_in_order() {
    let addrs = get_addresses_from_response(&reply("a.test"));
    assert_eq!(
        addrs,
        vec![
            (IpValue::V4(0x5db8_d822), 300),
            (IpValue::V6(0x2001_0db8_0000_0000_0000_0000_0000_0001), 60)
        ]
    );
    assert!(get_addresses_from_response(&[0, 1]).is_empty());
    assert!(Handler::routes_to_add(false, &reply("a.test")).is_empty());
    assert_eq!(Handler::routes_to_add(true, &reply("a.test")).len(), 2);
}

#[test]
fn tcp_framing() {
    let f = frame_message(&[7, 8, 9]);
    assert_eq!(f, vec![0, 3, 7, 8, 9]);
    assert_eq!(frame_length([f[0], f[1]]), 3);
    let big = vec![0u8; 300];
    let g = Forwarder::frame_query(&big);
    assert_eq!(&g[..2], &[1, 44]);
    assert_eq!(Forwarder::reply_length([1, 44]), 300);
    assert_eq!(Server::frame_reply(&[]), vec![0, 0]);
}

#[test]
fn upstream_choice_and_split() {
    let mut s = slot(&["**.a.test", "*.b.test", "c.test"]);
    let cfg = Config::default();
    match Handler::upstream(&cfg, true) {
        Upstream::ViaSocks { proxy, target } => {
            assert_eq!(proxy, "127.0.0.1:1080");
            assert_eq!(target, "8.8.8.8:53");
        }
        _ => panic!("matched queries go through SOCKS"),
    }
    match Handler::upstream(&cfg, false) {
        Upstream::Direct(a) => assert_eq!(a, "1.1.1.1:53"),
        _ => panic!("other queries go direct"),
    }
    set_domain_enabled(&mut s, "*.b.test", false);
    let (on, off) = Server::split_dns_masks(&s);
    assert_eq!(on, vec!["**.a.test".to_string(), "c.test".to_string()]);
    assert_eq!(off, vec!["*.b.test".to_string()]);
}

#[test]
fn deep_mask_covers_single_level_mask() {
    for d in ["a.corp.test", "x.corp.test", ".corp.test", "a.b.corp.test", "corp.test"] {
        if domain_matches(d, "*.corp.test") {
            assert!(domain_matches(d, "**.corp.test"));
        }
    }
    assert!(domain_matches("a.b.corp.test", "**.corp.test"));
    assert!(!domain_matches("a.b.corp.test", "*.corp.test"));
}

#[test]
fn name_case_and_trailing_dots_do_not_matter() {
    let mut slot = ConfigSlot::new();
    let mut cfg = Config::default();
    cfg.domains = vec!["**.Corp.Test".into()];
    Config::load(&mut slot, Some(cfg));
    for raw in ["api.corp.test", "API.CORP.TEST", "Api.Corp.Test.", "api.corp.test..", "other.test"] {
        let expected = name_matches(&slot, &raw.trim_end_matches('.').to_ascii_lowercase());
        assert_eq!(name_matches(&slot, raw), expected);
    }
    assert!(name_matches(&slot, "API.CORP.TEST."));
}

#[test]
fn split_covers_every_mask_once() {
    let mut slot = ConfigSlot::new();
    let mut cfg = Config::default();
    cfg.domains = vec!["a.test".into(), "**.b.test".into(), "*.c.test".into(), "a.test".into()];
    Config::load(&mut slot, Some(cfg));
    set_domain_enabled(&mut slot, "**.b.test", false);
    let (on, off) = Server::split_dns_masks(&slot);
    assert_eq!(on, vec!["a.test".to_string(), "*.c.test".to_string(), "a.test".to_string()]);
    assert_eq!(off, vec!["**.b.test".to_string()]);
    for m in ["a.test", "**.b.test", "*.c.test"] {
        assert!(on.iter().any(|x| x == m) != off.iter().any(|x| x == m));
    }
}
