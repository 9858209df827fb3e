use talpa::ip::IpValue;
use talpa::platform::TunHandle;
use talpa::tunnel::{active_tun, effective_ttl, Tunnel};

#[test]
fn ttl_floor() {
    assert_eq!(effective_ttl(30, 60), 60);
    assert_eq!(effective_ttl(300, 60), 300);
}

#[test]
fn route_timers_are_replaced_and_drained() {
    let mut t: Tunnel<&'static str> = Tunnel::new();
    assert!(active_tun(&t).is_none());
    t.set_active(TunHandle { name: "utun5".into(), gateway: "10.0.0.1".into() });
    assert_eq!(active_tun(&t).unwrap().gateway, "10.0.0.1");
    let a = IpValue::V4(0x01020304);
    let b = IpValue::V6(1);
    assert_eq!(t.register_route(a, "t1"), None);
    assert_eq!(t.register_route(a, "t2"), Some("t1"));
    assert_eq!(t.register_route(b, "t3"), None);
    let ips = t.route_ips();
    assert_eq!(ips.len(), 2);
    assert_eq!(t.expire_route(b), Some("t3"));
    assert_eq!(t.expire_route(b), None);
    let drained = t.drain_routes();
    assert_eq!(drained, vec![(a, "t2")]);
    assert!(t.route_ips().is_empty());
    assert!(t.clear_active().is_some());
    assert!(active_tun(&t).is_none());
}

#[test]
fn connections_keep_routes_alive() {
    let mut t: Tunnel<u8> = Tunnel::new();
    let ip = IpValue::V4(7);
    assert!(!t.keeps_route(ip));
    t.conn_opened(ip);
    t.conn_opened(ip);
    assert_eq!(t.active_conn_count(ip), 2);
    assert!(t.keeps_route(ip));
    t.conn_closed(ip);
    t.conn_closed(ip);
    assert_eq!(t.active_conn_count(ip), 0);
    assert!(!t.keeps_route(ip));
    t.conn_closed(ip);
    assert_eq!(t.active_conn_count(ip), 0);
}
