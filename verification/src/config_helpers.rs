//! Section accessors that create a config section with its defaults when it
//! is absent.

use vstd::prelude::*;
use crate::text::{chars_eq, chars_of, string_from_chars, trim, trim_chars};
use crate::proxy_config::{
    default_tunnel, is_default_dns, is_default_system_proxy, is_default_tunnel, Config, DnsConfig,
    SshTunnelConfig, SystemProxyConfig,
};

verus! {

/// The SSH tunnel section, created with its defaults when absent.
pub fn ensure_tunnel(c: &mut Config) -> (res: &mut SshTunnelConfig)
    ensures
        match old(c).ssh_tunnel {
            Some(t) => *res == t,
            None => is_default_tunnel(*res),
        },
        *final(c) == (Config { ssh_tunnel: Some(*final(res)), ..*old(c) }),
{
    if c.ssh_tunnel.is_none() {
        c.ssh_tunnel = Some(default_tunnel());
    }
    c.ssh_tunnel.as_mut().unwrap()
}

/// The system proxy section, created with its defaults when absent.
pub fn ensure_sp(c: &mut Config) -> (res: &mut SystemProxyConfig)
    ensures
        match old(c).system_proxy {
            Some(s) => *res == s,
            None => is_default_system_proxy(*res),
        },
        *final(c) == (Config { system_proxy: Some(*final(res)), ..*old(c) }),
{
    if c.system_proxy.is_none() {
        c.system_proxy = Some(SystemProxyConfig::default());
    }
    c.system_proxy.as_mut().unwrap()
}

/// The DNS proxy section, created with its defaults when absent.
pub fn ensure_dns(c: &mut Config) -> (res: &mut DnsConfig)
    ensures
        match old(c).dns {
            Some(d) => *res == d,
            None => is_default_dns(*res),
        },
        *final(c) == (Config { dns: Some(*final(res)), ..*old(c) }),
{
    if c.dns.is_none() {
        c.dns = Some(DnsConfig::default());
    }
    c.dns.as_mut().unwrap()
}

/// The rule list after adding `entry` trimmed, unless it is empty once
/// trimmed or already listed.
pub open spec fn spec_add_rule(list: Seq<Seq<char>>, entry: Seq<char>) -> Seq<Seq<char>> {
    let t = trim(entry);
    if t.len() == 0 || list.contains(t) {
        list
    } else {
        list.push(t)
    }
}

/// The views of a list of strings.
pub open spec fn views(list: Seq<String>) -> Seq<Seq<char>> {
    list.map_values(|s: String| s@)
}

/// Adds a domain mask or IP rule typed by the user: trimmed, and only when it
/// is not empty and not listed yet. Returns whether the list changed.
pub fn add_rule(list: &mut Vec<String>, entry: &str) -> (res: bool)
    ensures
        views(final(list)@) == spec_add_rule(views(old(list)@), entry@),
        res == (views(final(list)@) != views(old(list)@)),
{
    let t = trim_chars(&chars_of(entry));
    if t.len() == 0 {
        return false;
    }
    let mut i: usize = 0;
    while i < list.len()
        invariant
            0 <= i <= list@.len(),
            list@ == old(list)@,
            t@ == trim(entry@),
            forall|k: int| 0 <= k < i ==> list@[k]@ != t@,
        decreases list@.len() - i,
    {
        let cur = chars_of(list[i].as_str());
        if chars_eq(&cur, &t) {
            assert(views(list@)[i as int] == t@);
            assert(views(list@).contains(t@));
            return false;
        }
        i += 1;
    }
    assert(!views(list@).contains(t@)) by {
        assert forall|k: int| 0 <= k < views(list@).len() implies views(list@)[k] != t@ by {}
    }
    let ghost before = views(list@);
    list.push(string_from_chars(&t));
    assert(views(list@) =~= before.push(t@));
    assert(views(list@).len() != before.len());
    true
}

/// The predicate "differs from `sel`".
pub open spec fn differs_from(sel: Seq<char>) -> spec_fn(Seq<char>) -> bool {
    |s: Seq<char>| s != sel
}

/// The rule list without any entry equal to `sel`.
pub open spec fn spec_remove_rule(list: Seq<Seq<char>>, sel: Seq<char>) -> Seq<Seq<char>> {
    list.filter(differs_from(sel))
}

/// Removes every entry equal to `sel`.
pub fn remove_rule(list: &mut Vec<String>, sel: &str)
    ensures
        views(final(list)@) == spec_remove_rule(views(old(list)@), sel@),
{
    let target = chars_of(sel);
    let mut kept: Vec<String> = Vec::new();
    let mut i: usize = 0;
    while i < list.len()
        invariant
            0 <= i <= list@.len(),
            target@ == sel@,
            views(kept@) == spec_remove_rule(views(list@).subrange(0, i as int), sel@),
        decreases list@.len() - i,
    {
        let cur = chars_of(list[i].as_str());
        let ghost sub = views(list@).subrange(0, i as int);
        let ghost next = views(list@).subrange(0, i + 1);
        assert(next.drop_last() =~= sub);
        reveal_with_fuel(Seq::filter, 1);
        if !chars_eq(&cur, &target) {
            kept.push(list[i].clone());
            assert(views(kept@) =~= views(kept@).drop_last().push(list@[i as int]@));
        }
        assert(views(kept@) =~= spec_remove_rule(next, sel@));
        i += 1;
    }
    assert(views(list@).subrange(0, list@.len() as int) =~= views(list@));
    *list = kept;
}

/// Sets the tunnel's local port; the upstream proxy follows it.
pub fn set_tunnel_port(c: &mut Config, port: u16)
    ensures
        final(c).ssh_tunnel matches Some(t) && t.local_port == port,
        final(c).upstream.port == port,
        final(c).upstream.addr == old(c).upstream.addr,
        final(c).domains == old(c).domains,
        final(c).ips == old(c).ips,
        final(c).listen == old(c).listen,
        final(c).system_proxy == old(c).system_proxy,
        final(c).dns == old(c).dns,
        match old(c).ssh_tunnel {
            Some(t) => final(c).ssh_tunnel == Some(SshTunnelConfig { local_port: port, ..t }),
            None => final(c).ssh_tunnel matches Some(t) && is_default_tunnel(
                SshTunnelConfig { local_port: 10808, ..t },
            ),
        },
{
    let t = ensure_tunnel(c);
    t.local_port = port;
    c.upstream.port = port;
}

/// Drops the stored SSH password, if any.
pub fn clear_password(c: &mut Config)
    ensures
        *final(c) == (Config {
            ssh_tunnel: match old(c).ssh_tunnel {
                Some(t) => Some(SshTunnelConfig { password: None, ..t }),
                None => None,
            },
            ..*old(c)
        }),
{
    if c.ssh_tunnel.is_some() {
        let t = c.ssh_tunnel.as_mut().unwrap();
        t.password = None;
    }
}

/// Turns the system proxy section on (keeping its settings, or the defaults
/// when absent) or off (removing it).
pub fn set_system_proxy_enabled(c: &mut Config, on: bool)
    ensures
        *final(c) == (Config { system_proxy: final(c).system_proxy, ..*old(c) }),
        !on ==> final(c).system_proxy is None,
        on ==> match old(c).system_proxy {
            Some(s) => final(c).system_proxy == Some(s),
            None => final(c).system_proxy matches Some(s) && is_default_system_proxy(s),
        },
{
    if on {
        let s = match c.system_proxy {
            Some(s) => s,
            None => SystemProxyConfig::default(),
        };
        c.system_proxy = Some(s);
    } else {
        c.system_proxy = None;
    }
}

/// Turns the DNS proxy section on (keeping its settings, or the defaults when
/// absent) or off (removing it).
pub fn set_dns_enabled(c: &mut Config, on: bool)
    ensures
        *final(c) == (Config { dns: final(c).dns, ..*old(c) }),
        !on ==> final(c).dns is None,
        on ==> match old(c).dns {
            Some(d) => final(c).dns == Some(d),
            None => final(c).dns matches Some(d) && is_default_dns(d),
        },
{
    if on {
        if c.dns.is_none() {
            c.dns = Some(DnsConfig::default());
        }
    } else {
        c.dns = None;
    }
}

/// Ensuring a section twice is the same as ensuring it once: an existing
/// section is handed back unchanged and the rest of the config is kept.
pub proof fn lemma_ensure_keeps_existing(c: Config, t: SshTunnelConfig)
    requires
        c.ssh_tunnel == Some(t),
    ensures
        (Config { ssh_tunnel: Some(t), ..c }) == c,
{
}

/// Adding a rule twice changes the list at most once, and an added rule is
/// listed afterwards unless it was blank.
pub proof fn lemma_add_rule_idempotent(list: Seq<Seq<char>>, entry: Seq<char>)
    ensures
        spec_add_rule(spec_add_rule(list, entry), entry) == spec_add_rule(list, entry),
        trim(entry).len() > 0 ==> spec_add_rule(list, entry).contains(trim(entry)),
{
    let t = trim(entry);
    if t.len() > 0 && !list.contains(t) {
        assert(list.push(t)[list.len() as int] == t);
    }
}

/// After removing `sel`, it is no longer listed, and every other entry is.
pub proof fn lemma_remove_rule(list: Seq<Seq<char>>, sel: Seq<char>)
    ensures
        !spec_remove_rule(list, sel).contains(sel),
        forall|s: Seq<char>| s != sel ==> (list.contains(s) <==> spec_remove_rule(list, sel).contains(s)),
{
    let pred = differs_from(sel);
    let filtered = list.filter(pred);
    assert forall|s: Seq<char>| s != sel implies (list.contains(s) <==> spec_remove_rule(list, sel).contains(s)) by {
        if filtered.contains(s) {
            list.lemma_filter_contains_rev(pred, s);
        }
        if list.contains(s) {
            let i = choose|i: int| 0 <= i < list.len() && list[i] == s;
            list.lemma_filter_contains(pred, i);
        }
    }
    if filtered.contains(sel) {
        let i = choose|i: int| 0 <= i < filtered.len() && filtered[i] == sel;
        list.lemma_filter_pred(pred, i);
    }
}

/// Removing a rule right after adding it leaves the list as removing it
/// would have left it before the addition.
pub proof fn lemma_remove_undoes_add(list: Seq<Seq<char>>, entry: Seq<char>)
    ensures
        spec_remove_rule(spec_add_rule(list, entry), trim(entry)) == spec_remove_rule(
            list,
            trim(entry),
        ),
{
    let t = trim(entry);
    if t.len() > 0 && !list.contains(t) {
        list.lemma_filter_push(t, differs_from(t));
    }
}

} // verus!
