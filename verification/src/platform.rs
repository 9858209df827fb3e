//! Pieces of the per-OS system layer that compute rather than act: route
//! destinations, split-DNS names and the checks made on command output. The
//! commands themselves are run by the application around this library.

use vstd::prelude::*;
use crate::text::{
    extend_chars, chars_of, concat_str, contains_chars, contains_seq, find_char, find_char_chars, has_char,
    rfind_char, rfind_char_chars, string_from_chars, substr, trim_start_seq, trim_start_seq_chars,
};

verus! {

/// The live TUN interface, as the OS calls that need it see it.
#[derive(Clone)]
pub struct TunHandle {
    /// Interface name (e.g. `utun5` on macOS, `talpa` on Linux/Windows).
    pub name: String,
    /// Peer / gateway address used as the route target.
    pub gateway: String,
}

/// The macOS backend: BSD `route`, `/etc/resolver`, `dscacheutil`.
pub struct MacOs;

/// The Linux backend: `ip route`, systemd-resolved.
pub struct Linux;

/// The Windows backend: PowerShell `*-NetRoute`, NRPT rules.
pub struct Windows;

/// The base domain of a mask: every leading `**.` and then every leading `*.`
/// removed.
pub open spec fn spec_mask_base(mask: Seq<char>) -> Seq<char> {
    trim_start_seq(trim_start_seq(mask, "**."@), "*."@)
}

/// Extracts the base domain from a mask (`**.example.com` / `*.example.com`
/// → `example.com`).
pub fn mask_base(mask: &str) -> (res: &str)
    ensures
        res@ == spec_mask_base(mask@),
{
    let m = chars_of(mask);
    let deep = chars_of("**.");
    let a = trim_start_seq_chars(&m, &deep);
    let one = chars_of("*.");
    let b = trim_start_seq_chars(&a, &one);
    proof {
        lemma_trim_start_seq_suffix(m@, deep@);
        lemma_trim_start_seq_suffix(a@, one@);
    }
    substr(mask, m.len() - b.len(), m.len())
}

/// Repeatedly trimming a prefix leaves a suffix of the text.
pub proof fn lemma_trim_start_seq_suffix(s: Seq<char>, p: Seq<char>)
    ensures
        trim_start_seq(s, p).len() <= s.len(),
        trim_start_seq(s, p) == s.subrange(s.len() - trim_start_seq(s, p).len(), s.len() as int),
    decreases s.len(),
{
    if p.len() > 0 && crate::text::starts_with(s, p) {
        let t = s.subrange(p.len() as int, s.len() as int);
        lemma_trim_start_seq_suffix(t, p);
        assert(t.subrange(t.len() - trim_start_seq(t, p).len(), t.len() as int) =~= s.subrange(
            s.len() - trim_start_seq(t, p).len(),
            s.len() as int,
        ));
    } else {
        assert(s.subrange(0, s.len() as int) =~= s);
    }
}

/// A route destination with an explicit prefix: a bare IP becomes a `/32`
/// host route, a CIDR is kept.
pub open spec fn spec_normalize_prefix(dst: Seq<char>) -> Seq<char> {
    if dst.contains('/') {
        dst
    } else {
        dst + "/32"@
    }
}

/// Normalises a route destination to an explicit prefix.
pub fn normalize_prefix(dst: &str) -> (res: String)
    ensures
        res@ == spec_normalize_prefix(dst@),
{
    let d = chars_of(dst);
    if has_char(&d, '/') {
        string_from_chars(&d)
    } else {
        concat_str(dst, "/32")
    }
}

/// The BSD `route` flag for a destination: `-net` for a CIDR, `-host` for a
/// single IP.
pub fn route_flag(dst: &str) -> (res: &'static str)
    ensures
        dst@.contains('/') ==> res@ == "-net"@,
        !dst@.contains('/') ==> res@ == "-host"@,
{
    let d = chars_of(dst);
    if has_char(&d, '/') {
        "-net"
    } else {
        "-host"
    }
}

/// A destination usable with `route get`: the part before the first `/`.
pub fn probe_dst(dst: &str) -> (res: &str)
    ensures
        res@ == dst@.subrange(0, find_char(dst@, '/')),
{
    let d = chars_of(dst);
    let i = find_char_chars(&d, '/');
    substr(dst, 0, i)
}

/// The host part of a listen address (everything before the last `:`), or
/// `127.0.0.1` when it has no `:`.
pub open spec fn spec_nameserver_ip(listen_addr: Seq<char>) -> Seq<char> {
    if rfind_char(listen_addr, ':') < 0 {
        "127.0.0.1"@
    } else {
        listen_addr.subrange(0, rfind_char(listen_addr, ':'))
    }
}

/// The address the OS resolver should send matched queries to.
pub fn nameserver_ip(listen_addr: &str) -> (res: &str)
    ensures
        res@ == spec_nameserver_ip(listen_addr@),
{
    let d = chars_of(listen_addr);
    match rfind_char_chars(&d, ':') {
        Some(i) => {
            proof {
                lemma_rfind_char_bounds(d@, ':', d@.len() as int);
            }
            substr(listen_addr, 0, i)
        },
        None => "127.0.0.1",
    }
}

proof fn lemma_rfind_char_bounds(s: Seq<char>, c: char, end: int)
    requires
        0 <= end <= s.len(),
    ensures
        -1 <= crate::text::rfind_char_before(s, c, end) < end,
    decreases end,
{
    if end > 0 && s[end - 1] != c {
        lemma_rfind_char_bounds(s, c, end - 1);
    }
}

impl MacOs {
    /// The `/etc/resolver` file that sends a mask's domain to our server.
    pub fn resolver_path(mask: &str) -> (res: String)
        ensures
            res@ == "/etc/resolver/"@ + spec_mask_base(mask@),
    {
        concat_str("/etc/resolver/", mask_base(mask))
    }

    /// The contents of a resolver file: `nameserver <ip>\n`.
    pub fn resolver_contents(listen_addr: &str) -> (res: String)
        ensures
            res@ == "nameserver "@ + spec_nameserver_ip(listen_addr@) + "\n"@,
    {
        let a = concat_str("nameserver ", nameserver_ip(listen_addr));
        concat_str(a.as_str(), "\n")
    }

    /// Whether `route get` output shows the destination going through `gateway`.
    pub fn routes_via_gateway(route_output: &str, gateway: &str) -> (res: bool)
        ensures
            res == contains_seq(route_output@, "gateway: "@ + gateway@),
    {
        let needle = concat_str("gateway: ", gateway);
        contains_chars(&chars_of(route_output), &chars_of(needle.as_str()))
    }
}

impl Linux {
    /// The routing-only resolved domain for a mask: `~<base>`.
    pub fn routing_domain(mask: &str) -> (res: String)
        ensures
            res@ == "~"@ + spec_mask_base(mask@),
    {
        concat_str("~", mask_base(mask))
    }

    /// Whether `ip route show` output shows the route on the TUN device.
    pub fn routes_via_device(route_output: &str, device: &str) -> (res: bool)
        ensures
            res == contains_seq(route_output@, "dev "@ + device@),
    {
        let needle = concat_str("dev ", device);
        contains_chars(&chars_of(route_output), &chars_of(needle.as_str()))
    }
}

impl Linux {
    /// The `resolvectl domain` arguments that route the masks' base domains
    /// (routing-only, `~<base>`) to `link`.
    pub fn domain_args(link: &str, masks: &[String]) -> (res: Vec<String>)
        ensures
            res@.map_values(|s: String| s@) == seq!["domain"@, link@] + masks@.map_values(
                |m: String| "~"@ + spec_mask_base(m@),
            ),
    {
        let mut v: Vec<String> = Vec::new();
        v.push("domain".to_owned());
        v.push(link.to_owned());
        let mut i: usize = 0;
        while i < masks.len()
            invariant
                0 <= i <= masks@.len(),
                v@.map_values(|s: String| s@) == seq!["domain"@, link@] + masks@.subrange(
                    0,
                    i as int,
                ).map_values(|m: String| "~"@ + spec_mask_base(m@)),
            decreases masks@.len() - i,
        {
            let ghost before = v@;
            let d = Linux::routing_domain(masks[i].as_str());
            v.push(d);
            let ghost head = seq!["domain"@, link@];
            let ghost done = masks@.subrange(0, i as int).map_values(|m: String| "~"@ + spec_mask_base(m@));
            assert(masks@.subrange(0, i + 1).map_values(|m: String| "~"@ + spec_mask_base(m@))
                =~= done.push("~"@ + spec_mask_base(masks@[i as int]@)));
            assert(v@.map_values(|s: String| s@) =~= before.map_values(|s: String| s@).push(d@));
            assert(head + done.push(d@) =~= (head + done).push(d@));
            i += 1;
        }
        assert(masks@.subrange(0, masks@.len() as int) =~= masks@);
        v
    }
}

/// The PowerShell command that adds a route for `dst` through the TUN.
pub open spec fn spec_new_route_script(tun: TunHandle, dst: Seq<char>) -> Seq<char> {
    "New-NetRoute -DestinationPrefix '"@ + spec_normalize_prefix(dst) + "' -InterfaceAlias '"@
        + tun.name@ + "' -NextHop '"@ + tun.gateway@
        + "' -PolicyStore ActiveStore -ErrorAction Stop"@
}

/// The PowerShell command that removes the route for `dst`.
pub open spec fn spec_remove_route_script(dst: Seq<char>) -> Seq<char> {
    "Remove-NetRoute -DestinationPrefix '"@ + spec_normalize_prefix(dst)
        + "' -Confirm:$false -ErrorAction SilentlyContinue"@
}

/// The PowerShell command that prints the route for `dst` on the TUN, if any.
pub open spec fn spec_get_route_script(tun: TunHandle, dst: Seq<char>) -> Seq<char> {
    "Get-NetRoute -DestinationPrefix '"@ + spec_normalize_prefix(dst) + "' -InterfaceAlias '"@
        + tun.name@ + "' -ErrorAction SilentlyContinue | Select-Object -First 1"@
}

/// The PowerShell command that adds the NRPT rule for a mask.
pub open spec fn spec_add_nrpt_script(mask: Seq<char>, listen_addr: Seq<char>) -> Seq<char> {
    "Add-DnsClientNrptRule -Namespace '"@ + ("."@ + spec_mask_base(mask)) + "' -NameServers '"@
        + spec_nameserver_ip(listen_addr) + "' -ErrorAction Stop"@
}

/// The PowerShell command that removes the NRPT rule for a mask.
pub open spec fn spec_remove_nrpt_script(mask: Seq<char>) -> Seq<char> {
    "Get-DnsClientNrptRule | Where-Object { $_.Namespace -eq '"@ + ("."@ + spec_mask_base(mask))
        + "' } | Remove-DnsClientNrptRule -Force -ErrorAction SilentlyContinue"@
}

impl Windows {
    /// Builds the command that adds a route for `dst` through the TUN.
    pub fn new_route_script(tun: &TunHandle, dst: &str) -> (res: String)
        ensures
            res@ == spec_new_route_script(*tun, dst@),
    {
        let mut v = chars_of("New-NetRoute -DestinationPrefix '");
        extend_chars(&mut v, &chars_of(normalize_prefix(dst).as_str()));
        extend_chars(&mut v, &chars_of("' -InterfaceAlias '"));
        extend_chars(&mut v, &chars_of(tun.name.as_str()));
        extend_chars(&mut v, &chars_of("' -NextHop '"));
        extend_chars(&mut v, &chars_of(tun.gateway.as_str()));
        extend_chars(&mut v, &chars_of("' -PolicyStore ActiveStore -ErrorAction Stop"));
        string_from_chars(&v)
    }

    /// Builds the command that removes the route for `dst`.
    pub fn remove_route_script(dst: &str) -> (res: String)
        ensures
            res@ == spec_remove_route_script(dst@),
    {
        let mut v = chars_of("Remove-NetRoute -DestinationPrefix '");
        extend_chars(&mut v, &chars_of(normalize_prefix(dst).as_str()));
        extend_chars(&mut v, &chars_of("' -Confirm:$false -ErrorAction SilentlyContinue"));
        string_from_chars(&v)
    }

    /// Builds the command that prints the route for `dst` on the TUN.
    pub fn get_route_script(tun: &TunHandle, dst: &str) -> (res: String)
        ensures
            res@ == spec_get_route_script(*tun, dst@),
    {
        let mut v = chars_of("Get-NetRoute -DestinationPrefix '");
        extend_chars(&mut v, &chars_of(normalize_prefix(dst).as_str()));
        extend_chars(&mut v, &chars_of("' -InterfaceAlias '"));
        extend_chars(&mut v, &chars_of(tun.name.as_str()));
        extend_chars(&mut v, &chars_of("' -ErrorAction SilentlyContinue | Select-Object -First 1"));
        string_from_chars(&v)
    }

    /// Builds the command that adds the NRPT rule for `mask`, pointing at the
    /// host part of `listen_addr`.
    pub fn add_nrpt_script(mask: &str, listen_addr: &str) -> (res: String)
        ensures
            res@ == spec_add_nrpt_script(mask@, listen_addr@),
    {
        let mut v = chars_of("Add-DnsClientNrptRule -Namespace '");
        extend_chars(&mut v, &chars_of(Windows::nrpt_namespace(mask).as_str()));
        extend_chars(&mut v, &chars_of("' -NameServers '"));
        extend_chars(&mut v, &chars_of(nameserver_ip(listen_addr)));
        extend_chars(&mut v, &chars_of("' -ErrorAction Stop"));
        string_from_chars(&v)
    }

    /// Builds the command that removes the NRPT rule for `mask`.
    pub fn remove_nrpt_script(mask: &str) -> (res: String)
        ensures
            res@ == spec_remove_nrpt_script(mask@),
    {
        let mut v = chars_of("Get-DnsClientNrptRule | Where-Object { $_.Namespace -eq '");
        extend_chars(&mut v, &chars_of(Windows::nrpt_namespace(mask).as_str()));
        extend_chars(
            &mut v,
            &chars_of("' } | Remove-DnsClientNrptRule -Force -ErrorAction SilentlyContinue"),
        );
        string_from_chars(&v)
    }
}

impl Windows {
    /// The NRPT namespace for a mask: `.<base>`.
    pub fn nrpt_namespace(mask: &str) -> (res: String)
        ensures
            res@ == "."@ + spec_mask_base(mask@),
    {
        concat_str(".", mask_base(mask))
    }
}

} // verus!
