use talpa::ip::IpValue;
use talpa::matcher::Matcher;
use talpa::socks5::{
    addr_shape, bound_addr_skip, build_connect_request, check_upstream_method,
    check_upstream_reply, choose_method, greeting, parse_target, reply, request,
    upstream_greeting, via_upstream, AddrShape, Request, SocksError, Target,
};

#[test]
fn client_handshake() {
    assert_eq!(greeting([5, 2]), Ok(2));
    assert_eq!(greeting([4, 1]), Err(SocksError::NotSocks5));
    assert_eq!(choose_method(&[2, 0]), ([5, 0], true));
    assert_eq!(choose_method(&[2]), ([5, 0xff], false));
    assert_eq!(request([5, 1, 0, 3]), Ok(Request::Connect(3)));
    assert_eq!(request([5, 2, 0, 1]), Ok(Request::Unsupported));
    assert_eq!(request([4, 1, 0, 1]), Err(SocksError::BadVersion));
    assert_eq!(reply(7), [5, 7, 0, 1, 0, 0, 0, 0, 0, 0]);
    assert_eq!(addr_shape(1), Some(AddrShape::Fixed(4)));
    assert_eq!(addr_shape(4), Some(AddrShape::Fixed(16)));
    assert_eq!(addr_shape(3), Some(AddrShape::LengthPrefixed));
    assert_eq!(addr_shape(9), None);
}

#[test]
fn targets_parse_and_rebuild() {
    match parse_target(1, &[10, 0, 0, 1, 0x01, 0xbb]).unwrap() {
        Target::Ip(IpValue::V4(a), p) => {
            assert_eq!(a, 0x0a00_0001);
            assert_eq!(p, 443);
        }
        _ => panic!("IPv4 target expected"),
    }
    match parse_target(3, &[8, b'a', b'.', b'b', b'.', b't', b'e', b's', b't', 0, 80]).unwrap() {
        Target::Domain(h, p) => {
            assert_eq!(h, "a.b.test");
            assert_eq!(p, 80);
        }
        _ => panic!("domain target expected"),
    }
    assert!(matches!(parse_target(7, &[]), Err(SocksError::UnsupportedAddressType)));
    let req = build_connect_request(&Target::Domain("ex.com".into(), 8080));
    assert_eq!(req, vec![5, 1, 0, 3, 6, b'e', b'x', b'.', b'c', b'o', b'm', 0x1f, 0x90]);
    let req6 = build_connect_request(&Target::Ip(IpValue::V6(1), 22));
    assert_eq!(req6.len(), 3 + 1 + 16 + 2);
    assert_eq!(req6[3], 4);
    assert_eq!(&req6[19..], &[1, 0, 22]);
    match parse_target(req6[3], &req6[4..]).unwrap() {
        Target::Ip(IpValue::V6(a), p) => {
            assert_eq!(a, 1);
            assert_eq!(p, 22);
        }
        _ => panic!("IPv6 target expected"),
    }
}

#[test]
fn upstream_handshake() {
    assert_eq!(upstream_greeting(), [5, 1, 0]);
    assert_eq!(check_upstream_method([5, 0]), Ok(()));
    assert_eq!(check_upstream_method([5, 2]), Err(SocksError::UpstreamRequiresAuth));
    assert_eq!(check_upstream_reply([5, 0, 0, 1]), Ok(1));
    assert_eq!(check_upstream_reply([5, 5, 0, 1]), Err(SocksError::UpstreamRefused(5)));
    assert_eq!(bound_addr_skip(1), Some(AddrShape::Fixed(6)));
    assert_eq!(bound_addr_skip(4), Some(AddrShape::Fixed(18)));
    assert_eq!(bound_addr_skip(3), Some(AddrShape::LengthPrefixed));
    assert_eq!(bound_addr_skip(0), None);
}

#[test]
fn routing_decision() {
    let m = Matcher::new(&["*.corp.test".to_string()], &["10.0.0.0/8".to_string()], &[None]);
    assert!(via_upstream(&m, &Target::Domain("db.corp.test".into(), 5432)));
    assert!(!via_upstream(&m, &Target::Domain("example.org".into(), 443)));
    assert!(via_upstream(&m, &Target::Ip(IpValue::V4(0x0a01_0101), 22)));
    assert!(!via_upstream(&m, &Target::Ip(IpValue::V4(0xc0a8_0001), 22)));
}
