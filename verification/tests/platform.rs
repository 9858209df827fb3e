use talpa::platform::{
    mask_base, nameserver_ip, normalize_prefix, probe_dst, route_flag, Linux, MacOs, TunHandle,
    Windows,
};

#[test]
fn mask_base_strips_wildcards() {
    assert_eq!(mask_base("**.example.com"), "example.com");
    assert_eq!(mask_base("*.example.com"), "example.com");
    assert_eq!(mask_base("example.com"), "example.com");
    assert_eq!(mask_base("**.**.*.*.x"), "x");
}

#[test]
fn normalize_prefix_adds_host_prefix() {
    assert_eq!(normalize_prefix("1.2.3.4"), "1.2.3.4/32");
    assert_eq!(normalize_prefix("1.2.3.0/24"), "1.2.3.0/24");
}

#[test]
fn bsd_route_helpers() {
    assert_eq!(route_flag("1.2.3.0/24"), "-net");
    assert_eq!(route_flag("1.2.3.4"), "-host");
    assert_eq!(probe_dst("1.2.3.0/24"), "1.2.3.0");
    assert_eq!(probe_dst("1.2.3.4"), "1.2.3.4");
}

#[test]
fn nameserver_ip_from_listen_addr() {
    assert_eq!(nameserver_ip("127.0.0.1:53"), "127.0.0.1");
    assert_eq!(nameserver_ip("::1:5353"), "::1");
    assert_eq!(nameserver_ip("localhost"), "127.0.0.1");
}

#[test]
fn split_dns_names() {
    assert_eq!(MacOs::resolver_path("**.corp.test"), "/etc/resolver/corp.test");
    assert_eq!(MacOs::resolver_contents("127.0.0.1:53"), "nameserver 127.0.0.1\n");
    assert_eq!(Linux::routing_domain("*.corp.test"), "~corp.test");
    assert_eq!(Windows::nrpt_namespace("corp.test"), ".corp.test");
}

#[test]
fn route_output_checks() {
    let out = "   route to: 1.2.3.4\n    gateway: 10.0.0.1\n  interface: utun5\n";
    assert!(MacOs::routes_via_gateway(out, "10.0.0.1"));
    assert!(!MacOs::routes_via_gateway(out, "10.0.0.2"));
    assert!(Linux::routes_via_device("1.2.3.4 via 10.0.0.1 dev talpa", "talpa"));
    assert!(!Linux::routes_via_device("1.2.3.4 via 192.168.1.1 dev eth0", "talpa"));
}

#[test]
fn resolvectl_domain_arguments() {
    let masks = vec!["**.corp.test".to_string(), "*.x.test".to_string(), "plain.test".to_string()];
    assert_eq!(
        Linux::domain_args("talpa", &masks),
        vec!["domain", "talpa", "~corp.test", "~x.test", "~plain.test"]
    );
    assert_eq!(Linux::domain_args("talpa", &[]), vec!["domain", "talpa"]);
}

#[test]
fn powershell_scripts() {
    let tun = TunHandle { name: "talpa".into(), gateway: "10.0.0.1".into() };
    assert_eq!(
        Windows::new_route_script(&tun, "1.2.3.4"),
        "New-NetRoute -DestinationPrefix '1.2.3.4/32' -InterfaceAlias 'talpa' -NextHop '10.0.0.1' -PolicyStore ActiveStore -ErrorAction Stop"
    );
    assert_eq!(
        Windows::remove_route_script("10.0.0.0/8"),
        "Remove-NetRoute -DestinationPrefix '10.0.0.0/8' -Confirm:$false -ErrorAction SilentlyContinue"
    );
    assert_eq!(
        Windows::get_route_script(&tun, "1.2.3.4"),
        "Get-NetRoute -DestinationPrefix '1.2.3.4/32' -InterfaceAlias 'talpa' -ErrorAction SilentlyContinue | Select-Object -First 1"
    );
    assert_eq!(
        Windows::add_nrpt_script("**.corp.test", "127.0.0.1:53"),
        "Add-DnsClientNrptRule -Namespace '.corp.test' -NameServers '127.0.0.1' -ErrorAction Stop"
    );
    assert_eq!(
        Windows::remove_nrpt_script("*.corp.test"),
        "Get-DnsClientNrptRule | Where-Object { $_.Namespace -eq '.corp.test' } | Remove-DnsClientNrptRule -Force -ErrorAction SilentlyContinue"
    );
}
