use talpa::ip::IpValue;
use talpa::matcher::{net_contains, parse_ip_rule, DomainPattern, IpNetValue, Matcher};

/// The addresses these tests use, as the plain values their text denotes.
fn ip(s: &str) -> IpValue {
    match s {
        "10.5.6.7" => IpValue::V4(0x0a05_0607),
        "172.16.0.1" => IpValue::V4(0xac10_0001),
        "192.168.1.100" => IpValue::V4(0xc0a8_0164),
        "192.168.1.101" => IpValue::V4(0xc0a8_0165),
        "10.1.2.3" => IpValue::V4(0x0a01_0203),
        "10.1.200.9" => IpValue::V4(0x0a01_c809),
        "10.2.0.1" => IpValue::V4(0x0a02_0001),
        "1.2.3.4" => IpValue::V4(0x0102_0304),
        "1.1.1.1" => IpValue::V4(0x0101_0101),
        "255.255.255.255" => IpValue::V4(0xffff_ffff),
        "::1" => IpValue::V6(1),
        "fd12:3456::1" => IpValue::V6(0xfd12_3456_0000_0000_0000_0000_0000_0001),
        "2001:db8::1" => IpValue::V6(0x2001_0db8_0000_0000_0000_0000_0000_0001),
        _ => panic!("unknown test address {s}"),
    }
}

/// The plain address parse of a rule text: the address for a bare address,
/// nothing for a CIDR or garbage.
fn bare(s: &str) -> Option<IpValue> {
    match s {
        "192.168.1.100" | "::1" | "1.2.3.4" => Some(ip(s)),
        _ => None,
    }
}

fn matcher(domains: &[String], ips: &[String]) -> Matcher {
    let addrs: Vec<Option<IpValue>> = ips.iter().map(|s| bare(s)).collect();
    Matcher::new(domains, ips, &addrs)
}

#[test]
fn domain_single_level() {
    let m = matcher(&["*.acme.test".into()], &[]);
    assert!(m.matches_domain("api.acme.test"));
    assert!(!m.matches_domain("sub.api.acme.test"));
    assert!(!m.matches_domain("acme.test"));
}

#[test]
fn domain_deep() {
    let m = matcher(&["**.acme.test".into()], &[]);
    assert!(m.matches_domain("acme.test"));
    assert!(m.matches_domain("a.acme.test"));
    assert!(m.matches_domain("a.b.acme.test"));
    assert!(!m.matches_domain("notacme.test"));
}

#[test]
fn domain_exact() {
    let m = matcher(&["exact.com".into()], &[]);
    assert!(m.matches_domain("exact.com"));
    assert!(!m.matches_domain("www.exact.com"));
    assert!(!m.matches_domain("notexact.com"));
}

#[test]
fn domain_case_insensitive() {
    let m = matcher(&["*.Example.COM".into()], &[]);
    assert!(m.matches_domain("API.EXAMPLE.COM"));
    assert!(m.matches_domain("api.example.com"));
}

#[test]
fn domain_trailing_dot_stripped() {
    let m = matcher(&["**.example.com".into()], &[]);
    assert!(m.matches_domain("api.example.com."));
}

#[test]
fn domain_empty_matcher() {
    let m = matcher(&[], &[]);
    assert!(!m.matches_domain("anything.com"));
}

#[test]
fn ip_subnet() {
    let m = matcher(&[], &["10.0.0.0/8".into()]);
    assert!(m.matches_ip(ip("10.5.6.7")));
    assert!(!m.matches_ip(ip("172.16.0.1")));
}

#[test]
fn ip_exact() {
    let m = matcher(&[], &["192.168.1.100".into()]);
    assert!(m.matches_ip(ip("192.168.1.100")));
    assert!(!m.matches_ip(ip("192.168.1.101")));
}

#[test]
fn ip_ipv6() {
    let m = matcher(&[], &["fd00::/8".into(), "::1".into()]);
    assert!(m.matches_ip(ip("fd12:3456::1")));
    assert!(m.matches_ip(ip("::1")));
    assert!(!m.matches_ip(ip("2001:db8::1")));
}

#[test]
fn ip_invalid_entries_ignored() {
    let m = matcher(&[], &["not_an_ip".into(), "10.0.0.0/8".into()]);
    assert!(m.matches_ip(ip("10.1.2.3")));
}

#[test]
fn cidr_parse_keeps_host_bits_and_prefix() {
    let n = parse_ip_rule("10.1.2.3/16", None).unwrap();
    assert_eq!(n, IpNetValue { addr: IpValue::V4(0x0a010203), prefix_len: 16 });
    assert!(net_contains(n, ip("10.1.200.9")));
    assert!(!net_contains(n, ip("10.2.0.1")));
    assert_eq!(parse_ip_rule("1.2.3.4", bare("1.2.3.4")).unwrap().prefix_len, 32);
    assert_eq!(parse_ip_rule("1.2.3.4/33", None), None);
    assert_eq!(parse_ip_rule("nonsense", None), None);
}

#[test]
fn zero_prefix_and_family_rules() {
    let any4 = parse_ip_rule("0.0.0.0/0", None).unwrap();
    assert!(net_contains(any4, ip("255.255.255.255")));
    assert!(!net_contains(any4, ip("::1")));
    let any6 = parse_ip_rule("::/0", None).unwrap();
    assert!(net_contains(any6, ip("2001:db8::1")));
    assert!(!net_contains(any6, ip("1.1.1.1")));
}

#[test]
fn pattern_parse_and_single_level_quirks() {
    assert!(DomainPattern::parse("*.x.com").matches("a.x.com"));
    assert!(!DomainPattern::parse("*.x.com").matches(".x.com"));
    assert!(DomainPattern::parse("**..x.com").matches("x.com"));
    assert!(DomainPattern::parse("ÄBC.de").matches("äbc.DE"));
}

#[test]
fn trailing_dots_never_change_the_answer() {
    let m = matcher(&["*.example.com".to_string(), "exact.test".to_string()], &[]);
    for d in ["a.example.com", "exact.test", "b.a.example.com", "nope.test"] {
        assert_eq!(m.matches_domain(&format!("{d}.")), m.matches_domain(d));
    }
}

#[test]
fn any_depth_pattern_covers_one_level_pattern() {
    let one = DomainPattern::parse("*.example.com");
    let deep = DomainPattern::parse("**.example.com");
    for d in ["a.example.com", "A.Example.COM", "a.b.example.com", "example.com", "other.org"] {
        if one.matches(d) {
            assert!(deep.matches(d));
        }
    }
}
