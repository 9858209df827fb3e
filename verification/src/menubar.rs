//! The menu-bar model of the standalone proxy: the text and state of each
//! settings item, computed from the configuration, and the edits the
//! settings dialogs make to it.

use vstd::prelude::*;
use crate::config_helpers::{ensure_dns, ensure_tunnel};
use crate::proxy_config::{Config, DnsConfig, SshTunnelConfig};
use crate::text::{
    chars_of, extend_chars, parse_u16, push_decimal, spec_decimal, spec_parse_u16,
    string_from_chars,
};

verus! {

/// Texts and states of the settings items.
pub struct MenuTexts {
    pub domains_title: String,
    pub ips_title: String,
    pub ssh_host: String,
    pub ssh_user: String,
    pub ssh_password: String,
    pub clear_password_enabled: bool,
    pub ssh_port: String,
    pub tunnel_port: String,
    pub system_proxy_checked: bool,
    pub npm_checked: bool,
    pub git_checked: bool,
    pub curl_checked: bool,
    pub dns_checked: bool,
    pub dns_items_enabled: bool,
    pub dns_listen: String,
    pub dns_upstream: String,
    pub dns_fallback: String,
    pub upstream_addr: String,
    pub upstream_port: String,
}

/// A setting edited through a text dialog.
#[derive(PartialEq, Eq, Structural, Clone, Copy, Debug)]
pub enum Field {
    SshHost,
    SshUser,
    SshPort,
    TunnelPort,
    DnsListen,
    DnsUpstream,
    DnsFallback,
    UpstreamAddr,
    UpstreamPort,
}

/// `label` followed by the decimal form of `n`.
pub open spec fn labelled_number(label: Seq<char>, n: nat) -> Seq<char> {
    label + spec_decimal(n)
}

/// The host shown in the menu: the tunnel's, or `-` without a tunnel.
pub open spec fn shown_host(c: Config) -> Seq<char> {
    match c.ssh_tunnel {
        Some(t) => t.host@,
        None => "-"@,
    }
}

/// The user shown in the menu: the tunnel's, or `-` without a tunnel.
pub open spec fn shown_user(c: Config) -> Seq<char> {
    match c.ssh_tunnel {
        Some(t) => t.user@,
        None => "-"@,
    }
}

/// Whether a password is stored.
pub open spec fn has_password(c: Config) -> bool {
    c.ssh_tunnel matches Some(t) && t.password is Some
}

/// The SSH port (22 without a tunnel).
pub open spec fn shown_ssh_port(c: Config) -> u16 {
    match c.ssh_tunnel {
        Some(t) => t.ssh_port,
        None => 22,
    }
}

/// The local tunnel port (10808 without a tunnel).
pub open spec fn shown_tunnel_port(c: Config) -> u16 {
    match c.ssh_tunnel {
        Some(t) => t.local_port,
        None => 10808,
    }
}

/// The DNS listen port (5300 without a DNS section).
pub open spec fn shown_dns_port(c: Config) -> u16 {
    match c.dns {
        Some(d) => d.listen_port,
        None => 5300,
    }
}

/// The DNS resolver for matched names (`8.8.8.8:53` without a DNS section).
pub open spec fn shown_dns_upstream(c: Config) -> Seq<char> {
    match c.dns {
        Some(d) => d.upstream_dns@,
        None => "8.8.8.8:53"@,
    }
}

/// The DNS resolver for the rest (`8.8.8.8:53` without a DNS section).
pub open spec fn shown_dns_fallback(c: Config) -> Seq<char> {
    match c.dns {
        Some(d) => d.fallback_dns@,
        None => "8.8.8.8:53"@,
    }
}

/// What every settings item shows for `c`.
pub open spec fn texts_of(c: Config, m: MenuTexts) -> bool {
    &&& m.domains_title@ == "Domains ("@ + spec_decimal(c.domains@.len()) + ")"@
    &&& m.ips_title@ == "IP Rules ("@ + spec_decimal(c.ips@.len()) + ")"@
    &&& m.ssh_host@ == "Host: "@ + shown_host(c)
    &&& m.ssh_user@ == "User: "@ + shown_user(c)
    &&& m.ssh_password@ == (if has_password(c) {
        "Password: ••••  (change...)"@
    } else {
        "Set password..."@
    })
    &&& m.clear_password_enabled == has_password(c)
    &&& m.ssh_port@ == labelled_number("SSH port: "@, shown_ssh_port(c) as nat)
    &&& m.tunnel_port@ == labelled_number("Tunnel port: "@, shown_tunnel_port(c) as nat)
    &&& m.system_proxy_checked == (c.system_proxy matches Some(s) && s.enabled)
    &&& m.npm_checked == (match c.system_proxy {
        Some(s) => s.configure_npm,
        None => true,
    })
    &&& m.git_checked == (match c.system_proxy {
        Some(s) => s.configure_git,
        None => true,
    })
    &&& m.curl_checked == (match c.system_proxy {
        Some(s) => s.configure_curl,
        None => true,
    })
    &&& m.dns_checked == c.dns is Some
    &&& m.dns_items_enabled == c.dns is Some
    &&& m.dns_listen@ == labelled_number("Listen port: "@, shown_dns_port(c) as nat)
    &&& m.dns_upstream@ == "Upstream DNS: "@ + shown_dns_upstream(c)
    &&& m.dns_fallback@ == "Fallback DNS: "@ + shown_dns_fallback(c)
    &&& m.upstream_addr@ == "Address: "@ + c.upstream.addr@
    &&& m.upstream_port@ == labelled_number("Port: "@, c.upstream.port as nat)
}

fn text_then(label: &str, tail: &str) -> (res: String)
    ensures
        res@ == label@ + tail@,
{
    let mut v = chars_of(label);
    extend_chars(&mut v, &chars_of(tail));
    string_from_chars(&v)
}

fn number_then(label: &str, n: u64) -> (res: String)
    ensures
        res@ == labelled_number(label@, n as nat),
{
    let mut v = chars_of(label);
    push_decimal(&mut v, n);
    string_from_chars(&v)
}

fn count_title(label: &str, n: usize) -> (res: String)
    ensures
        res@ == label@ + spec_decimal(n as nat) + ")"@,
{
    let mut v = chars_of(label);
    push_decimal(&mut v, n as u64);
    extend_chars(&mut v, &chars_of(")"));
    string_from_chars(&v)
}

/// Computes what every settings item shows for `c`.
pub fn menu_texts(c: &Config) -> (res: MenuTexts)
    ensures
        texts_of(*c, res),
{
    let has_pw = match &c.ssh_tunnel {
        Some(t) => t.password.is_some(),
        None => false,
    };
    let (host, user, ssh_port, tunnel_port) = match &c.ssh_tunnel {
        Some(t) => (text_then("Host: ", t.host.as_str()), text_then("User: ", t.user.as_str()), t.ssh_port, t.local_port),
        None => (text_then("Host: ", "-"), text_then("User: ", "-"), 22u16, 10808u16),
    };
    let (npm, git, curl, sp_on) = match &c.system_proxy {
        Some(s) => (s.configure_npm, s.configure_git, s.configure_curl, s.enabled),
        None => (true, true, true, false),
    };
    let (dns_on, listen, upstream, fallback) = match &c.dns {
        Some(d) => (
            true,
            d.listen_port,
            text_then("Upstream DNS: ", d.upstream_dns.as_str()),
            text_then("Fallback DNS: ", d.fallback_dns.as_str()),
        ),
        None => (
            false,
            5300u16,
            text_then("Upstream DNS: ", "8.8.8.8:53"),
            text_then("Fallback DNS: ", "8.8.8.8:53"),
        ),
    };
    let pw = if has_pw {
        "Password: ••••  (change...)".to_owned()
    } else {
        "Set password...".to_owned()
    };
    MenuTexts {
        domains_title: count_title("Domains (", c.domains.len()),
        ips_title: count_title("IP Rules (", c.ips.len()),
        ssh_host: host,
        ssh_user: user,
        ssh_password: pw,
        clear_password_enabled: has_pw,
        ssh_port: number_then("SSH port: ", ssh_port as u64),
        tunnel_port: number_then("Tunnel port: ", tunnel_port as u64),
        system_proxy_checked: sp_on,
        npm_checked: npm,
        git_checked: git,
        curl_checked: curl,
        dns_checked: dns_on,
        dns_items_enabled: dns_on,
        dns_listen: number_then("Listen port: ", listen as u64),
        dns_upstream: upstream,
        dns_fallback: fallback,
        upstream_addr: text_then("Address: ", c.upstream.addr.as_str()),
        upstream_port: number_then("Port: ", c.upstream.port as u64),
    }
}

/// The prompt of the password dialog: `Password for <user>@<host>:`, with
/// `user` and `host` standing in when there is no tunnel.
pub open spec fn spec_password_prompt(c: Config) -> Seq<char> {
    match c.ssh_tunnel {
        Some(t) => "Password for "@ + t.user@ + "@"@ + t.host@ + ":"@,
        None => "Password for user@host:"@,
    }
}

/// Builds the prompt of the password dialog.
pub fn password_prompt(c: &Config) -> (res: String)
    ensures
        res@ == spec_password_prompt(*c),
{
    match &c.ssh_tunnel {
        Some(t) => {
            let mut v = chars_of("Password for ");
            extend_chars(&mut v, &chars_of(t.user.as_str()));
            extend_chars(&mut v, &chars_of("@"));
            extend_chars(&mut v, &chars_of(t.host.as_str()));
            extend_chars(&mut v, &chars_of(":"));
            string_from_chars(&v)
        },
        None => "Password for user@host:".to_owned(),
    }
}

/// The value a settings dialog starts with: the current setting, or its
/// default when the section is absent (empty for host and user).
pub open spec fn spec_field_value(c: Config, f: Field) -> Seq<char> {
    match f {
        Field::SshHost => match c.ssh_tunnel {
            Some(t) => t.host@,
            None => Seq::empty(),
        },
        Field::SshUser => match c.ssh_tunnel {
            Some(t) => t.user@,
            None => Seq::empty(),
        },
        Field::SshPort => spec_decimal(shown_ssh_port(c) as nat),
        Field::TunnelPort => spec_decimal(shown_tunnel_port(c) as nat),
        Field::DnsListen => spec_decimal(shown_dns_port(c) as nat),
        Field::DnsUpstream => shown_dns_upstream(c),
        Field::DnsFallback => shown_dns_fallback(c),
        Field::UpstreamAddr => c.upstream.addr@,
        Field::UpstreamPort => spec_decimal(c.upstream.port as nat),
    }
}

fn decimal_string(n: u16) -> (res: String)
    ensures
        res@ == spec_decimal(n as nat),
{
    let mut v: Vec<char> = Vec::new();
    push_decimal(&mut v, n as u64);
    string_from_chars(&v)
}

/// The value a settings dialog starts with.
pub fn field_value(c: &Config, f: Field) -> (res: String)
    ensures
        res@ == spec_field_value(*c, f),
{
    match f {
        Field::SshHost => match &c.ssh_tunnel {
            Some(t) => t.host.clone(),
            None => String::new(),
        },
        Field::SshUser => match &c.ssh_tunnel {
            Some(t) => t.user.clone(),
            None => String::new(),
        },
        Field::SshPort => decimal_string(
            match &c.ssh_tunnel {
                Some(t) => t.ssh_port,
                None => 22,
            },
        ),
        Field::TunnelPort => decimal_string(
            match &c.ssh_tunnel {
                Some(t) => t.local_port,
                None => 10808,
            },
        ),
        Field::DnsListen => decimal_string(
            match &c.dns {
                Some(d) => d.listen_port,
                None => 5300,
            },
        ),
        Field::DnsUpstream => match &c.dns {
            Some(d) => d.upstream_dns.clone(),
            None => "8.8.8.8:53".to_owned(),
        },
        Field::DnsFallback => match &c.dns {
            Some(d) => d.fallback_dns.clone(),
            None => "8.8.8.8:53".to_owned(),
        },
        Field::UpstreamAddr => c.upstream.addr.clone(),
        Field::UpstreamPort => decimal_string(c.upstream.port),
    }
}

/// Whether the field takes a port number.
pub open spec fn is_port_field(f: Field) -> bool {
    f == Field::SshPort || f == Field::TunnelPort || f == Field::DnsListen || f == Field::UpstreamPort
}

/// `t` keeps the fields of `base` (or of the default tunnel section when
/// there is none) that `f` does not edit.
pub open spec fn tunnel_kept(t: SshTunnelConfig, base: Option<SshTunnelConfig>, f: Field) -> bool {
    match base {
        Some(b) => {
            &&& (f != Field::SshHost ==> t.host == b.host)
            &&& (f != Field::SshUser ==> t.user == b.user)
            &&& (f != Field::SshPort ==> t.ssh_port == b.ssh_port)
            &&& (f != Field::TunnelPort ==> t.local_port == b.local_port)
            &&& t.password == b.password
        },
        None => {
            &&& (f != Field::SshHost ==> t.host@ == "ssh.example.com"@)
            &&& (f != Field::SshUser ==> t.user@ == "user"@)
            &&& (f != Field::SshPort ==> t.ssh_port == 22)
            &&& (f != Field::TunnelPort ==> t.local_port == 10808)
            &&& t.password is None
        },
    }
}

/// `d` keeps the fields of `base` (or of the default DNS section when there
/// is none) that `f` does not edit.
pub open spec fn dns_kept(d: DnsConfig, base: Option<DnsConfig>, f: Field) -> bool {
    match base {
        Some(b) => {
            &&& (f != Field::DnsListen ==> d.listen_port == b.listen_port)
            &&& (f != Field::DnsUpstream ==> d.upstream_dns == b.upstream_dns)
            &&& (f != Field::DnsFallback ==> d.fallback_dns == b.fallback_dns)
        },
        None => {
            &&& (f != Field::DnsListen ==> d.listen_port == 5300)
            &&& (f != Field::DnsUpstream ==> d.upstream_dns@ == "8.8.8.8:53"@)
            &&& (f != Field::DnsFallback ==> d.fallback_dns@ == "8.8.8.8:53"@)
        },
    }
}

/// `new` is `old` with field `f` set from the dialog answer `input` (parsed
/// as a port for the port fields): a tunnel or DNS field creates its
/// section with defaults when absent, and the tunnel port is also the
/// upstream port.
pub open spec fn field_set(old: Config, new: Config, f: Field, input: Seq<char>) -> bool {
    let port = spec_parse_u16(input).unwrap();
    match f {
        Field::SshHost | Field::SshUser | Field::SshPort => {
            &&& new == (Config { ssh_tunnel: new.ssh_tunnel, ..old })
            &&& new.ssh_tunnel matches Some(t) && tunnel_kept(t, old.ssh_tunnel, f) && (f
                == Field::SshHost ==> t.host@ == input) && (f == Field::SshUser ==> t.user@
                == input) && (f == Field::SshPort ==> t.ssh_port == port)
        },
        Field::TunnelPort => {
            &&& new == (Config { ssh_tunnel: new.ssh_tunnel, upstream: new.upstream, ..old })
            &&& new.ssh_tunnel matches Some(t) && tunnel_kept(t, old.ssh_tunnel, f) && t.local_port
                == port
            &&& new.upstream.port == port
            &&& new.upstream.addr == old.upstream.addr
        },
        Field::DnsListen | Field::DnsUpstream | Field::DnsFallback => {
            &&& new == (Config { dns: new.dns, ..old })
            &&& new.dns matches Some(d) && dns_kept(d, old.dns, f) && (f == Field::DnsListen
                ==> d.listen_port == port) && (f == Field::DnsUpstream ==> d.upstream_dns@
                == input) && (f == Field::DnsFallback ==> d.fallback_dns@ == input)
        },
        Field::UpstreamAddr => {
            &&& new == (Config { upstream: new.upstream, ..old })
            &&& new.upstream.addr@ == input
            &&& new.upstream.port == old.upstream.port
        },
        Field::UpstreamPort => {
            &&& new == (Config { upstream: new.upstream, ..old })
            &&& new.upstream.port == port
            &&& new.upstream.addr == old.upstream.addr
        },
    }
}

/// Applies the answer of a settings dialog. A port field whose answer is not
/// a port number leaves the config alone and returns `false`; otherwise the
/// field is set and `true` returned (the config is then saved and reloaded).
pub fn apply_field(c: &mut Config, f: Field, input: &str) -> (res: bool)
    ensures
        res == (!is_port_field(f) || spec_parse_u16(input@) is Some),
        res ==> field_set(*old(c), *final(c), f, input@),
        !res ==> *final(c) == *old(c),
{
    let port = if f == Field::SshPort || f == Field::TunnelPort || f == Field::DnsListen || f
        == Field::UpstreamPort {
        match parse_u16(&chars_of(input)) {
            Some(p) => p,
            None => return false,
        }
    } else {
        0
    };
    match f {
        Field::SshHost => {
            let t = ensure_tunnel(c);
            t.host = input.to_owned();
        },
        Field::SshUser => {
            let t = ensure_tunnel(c);
            t.user = input.to_owned();
        },
        Field::SshPort => {
            let t = ensure_tunnel(c);
            t.ssh_port = port;
        },
        Field::TunnelPort => {
            let t = ensure_tunnel(c);
            t.local_port = port;
            c.upstream.port = port;
        },
        Field::DnsListen => {
            let d = ensure_dns(c);
            d.listen_port = port;
        },
        Field::DnsUpstream => {
            let d = ensure_dns(c);
            d.upstream_dns = input.to_owned();
        },
        Field::DnsFallback => {
            let d = ensure_dns(c);
            d.fallback_dns = input.to_owned();
        },
        Field::UpstreamAddr => {
            c.upstream.addr = input.to_owned();
        },
        Field::UpstreamPort => {
            c.upstream.port = port;
        },
    }
    true
}

/// After a dialog's answer is applied, the next dialog for the same field
/// starts from that answer: the text itself, or for a port field the
/// port's decimal form (`+80` reads back as `80`).
pub proof fn lemma_applied_value_read_back(old: Config, new: Config, f: Field, input: Seq<char>)
    requires
        !is_port_field(f) || spec_parse_u16(input) is Some,
        field_set(old, new, f, input),
    ensures
        spec_field_value(new, f) == (if is_port_field(f) {
            spec_decimal(spec_parse_u16(input).unwrap() as nat)
        } else {
            input
        }),
{
}

} // verus!
