use talpa::dns_proxy::{parse_qname, resolver_for};
use talpa::matcher::Matcher;

fn query(labels: &[&[u8]]) -> Vec<u8> {
    let mut p = vec![0u8; 12];
    for l in labels {
        p.push(l.len() as u8);
        p.extend_from_slice(l);
    }
    p.push(0);
    p.extend_from_slice(&[0, 1, 0, 1]);
    p
}

#[test]
fn qname_is_joined_labels() {
    assert_eq!(parse_qname(&query(&[b"api", b"acme", b"test"])).as_deref(), Some("api.acme.test"));
    assert_eq!(parse_qname(&query(&[b"x"])).as_deref(), Some("x"));
}

#[test]
fn qname_edge_cases() {
    assert_eq!(parse_qname(&[0u8; 11]), None);
    assert_eq!(parse_qname(&query(&[])), None);
    let mut truncated = vec![0u8; 12];
    truncated.extend_from_slice(&[5, b'a', b'b']);
    assert_eq!(parse_qname(&truncated), None);
    let mut pointer = vec![0u8; 12];
    pointer.extend_from_slice(&[3, b'w', b'w', b'w', 0xc0, 0x0c]);
    assert_eq!(parse_qname(&pointer).as_deref(), Some("www"));
    assert_eq!(parse_qname(&query(&[&[0xff, b'a']])).as_deref(), Some("\u{fffd}a"));
    assert_eq!(parse_qname(&vec![0u8; 12]), None);
}

#[test]
fn resolver_choice() {
    let m = Matcher::new(&["**.corp.test".to_string()], &[], &[]);
    assert_eq!(resolver_for(&m, Some("a.corp.test"), "up", "fb"), "up");
    assert_eq!(resolver_for(&m, Some("a.other.test"), "up", "fb"), "fb");
    assert_eq!(resolver_for(&m, None, "up", "fb"), "fb");
}
