//! Configuration of the standalone SOCKS5 proxy: listen and upstream
//! addresses, domain and IP rules, and the optional SSH tunnel, system proxy
//! and DNS proxy sections.

use vstd::prelude::*;
use crate::text::{chars_of, string_from_chars};

verus! {

/// The whole configuration.
#[derive(Clone)]
pub struct Config {
    pub domains: Vec<String>,
    pub ips: Vec<String>,
    pub listen: ListenConfig,
    pub upstream: UpstreamConfig,
    pub ssh_tunnel: Option<SshTunnelConfig>,
    pub system_proxy: Option<SystemProxyConfig>,
    pub dns: Option<DnsConfig>,
}

/// Where the local SOCKS5 server listens.
#[derive(Clone)]
pub struct ListenConfig {
    pub addr: String,
    pub port: u16,
}

/// The upstream SOCKS5 proxy for matched traffic.
#[derive(Clone)]
pub struct UpstreamConfig {
    pub addr: String,
    pub port: u16,
}

/// The SSH tunnel that provides the upstream proxy.
#[derive(Clone)]
pub struct SshTunnelConfig {
    pub user: String,
    pub host: String,
    pub ssh_port: u16,
    pub local_port: u16,
    pub password: Option<String>,
}

/// System-wide proxy settings and the tools configured alongside.
#[derive(Clone, Copy)]
pub struct SystemProxyConfig {
    pub enabled: bool,
    pub configure_npm: bool,
    pub configure_git: bool,
    pub configure_curl: bool,
}

/// The local DNS proxy.
#[derive(Clone)]
pub struct DnsConfig {
    pub listen_port: u16,
    pub upstream_dns: String,
    pub fallback_dns: String,
}

/// Whether `t` is the tunnel section created when none exists.
pub open spec fn is_default_tunnel(t: SshTunnelConfig) -> bool {
    &&& t.user@ == "user"@
    &&& t.host@ == "ssh.example.com"@
    &&& t.ssh_port == 22
    &&& t.local_port == 10808
    &&& t.password is None
}

/// Whether `s` holds the default system proxy settings: everything on.
pub open spec fn is_default_system_proxy(s: SystemProxyConfig) -> bool {
    s.enabled && s.configure_npm && s.configure_git && s.configure_curl
}

/// Whether `d` holds the default DNS proxy settings.
pub open spec fn is_default_dns(d: DnsConfig) -> bool {
    &&& d.listen_port == 5300
    &&& d.upstream_dns@ == "8.8.8.8:53"@
    &&& d.fallback_dns@ == "8.8.8.8:53"@
}

impl Default for SystemProxyConfig {
    fn default() -> (res: Self)
        ensures
            is_default_system_proxy(res),
    {
        SystemProxyConfig {
            enabled: true,
            configure_npm: true,
            configure_git: true,
            configure_curl: true,
        }
    }
}

impl Default for DnsConfig {
    fn default() -> (res: Self)
        ensures
            is_default_dns(res),
    {
        DnsConfig {
            listen_port: 5300,
            upstream_dns: string_from_chars(&chars_of("8.8.8.8:53")),
            fallback_dns: string_from_chars(&chars_of("8.8.8.8:53")),
        }
    }
}

/// The tunnel section created when none exists.
pub fn default_tunnel() -> (res: SshTunnelConfig)
    ensures
        is_default_tunnel(res),
{
    SshTunnelConfig {
        user: string_from_chars(&chars_of("user")),
        host: string_from_chars(&chars_of("ssh.example.com")),
        ssh_port: 22,
        local_port: 10808,
        password: None,
    }
}

} // verus!
