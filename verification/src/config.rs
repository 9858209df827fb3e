//! Configuration of the pipeline (SSH target, SOCKS port, TUN, DNS, domain
//! masks) and the live configuration state: the loaded config plus the masks
//! the user has switched off at runtime.

use vstd::prelude::*;
use crate::text::{chars_of, push_decimal, spec_decimal, str_eq, string_from_chars};

verus! {

/// The whole configuration.
#[derive(Clone)]
pub struct Config {
    pub ssh: Ssh,
    pub socks: Socks,
    pub tun: Tun,
    pub dns: Dns,
    /// Domain masks routed through the proxy (`exact`, `*.one.level`,
    /// `**.any.depth`).
    pub domains: Vec<String>,
}

/// The SSH side of the tunnel.
#[derive(Clone)]
pub struct Ssh {
    /// `user@host` passed to ssh.
    pub target: String,
}

/// The local SOCKS5 proxy that `ssh -D` provides.
#[derive(Clone)]
pub struct Socks {
    /// Local port the SOCKS5 proxy listens on.
    pub port: u16,
}

/// The TUN interface and its routes.
#[derive(Clone)]
pub struct Tun {
    /// Address assigned to the TUN interface.
    pub address: String,
    /// Gateway / peer address used as the route target.
    pub gateway: String,
    pub netmask: String,
    pub mtu: u16,
    /// Floor for DNS-derived route TTLs, in seconds.
    pub min_ttl_secs: u64,
    /// Always-present routes: a single IP or a CIDR.
    pub static_routes: Vec<String>,
}

/// The local DNS proxy.
#[derive(Clone)]
pub struct Dns {
    /// Address the local DNS proxy binds to.
    pub listen_addr: String,
    /// Upstream resolver for names that no mask matches.
    pub upstream_addr: String,
    /// Upstream resolver reached over SOCKS for matched names.
    pub upstream_socks_addr: String,
}

/// Whether `s` holds the built-in SSH settings.
pub open spec fn is_default_ssh(s: Ssh) -> bool {
    s.target@ == "user@192.168.0.1"@
}

/// Whether `s` holds the built-in SOCKS settings.
pub open spec fn is_default_socks(s: Socks) -> bool {
    s.port == 1080
}

/// Whether `t` holds the built-in TUN settings.
pub open spec fn is_default_tun(t: Tun) -> bool {
    &&& t.address@ == "10.0.0.2"@
    &&& t.gateway@ == "10.0.0.1"@
    &&& t.netmask@ == "255.255.255.0"@
    &&& t.mtu == 1500
    &&& t.min_ttl_secs == 60
    &&& t.static_routes@.len() == 0
}

/// Whether `d` holds the built-in DNS settings.
pub open spec fn is_default_dns(d: Dns) -> bool {
    &&& d.listen_addr@ == "127.0.0.1:53"@
    &&& d.upstream_addr@ == "1.1.1.1:53"@
    &&& d.upstream_socks_addr@ == "8.8.8.8:53"@
}

/// Whether `c` is the built-in configuration used when no file exists.
pub open spec fn is_default_config(c: Config) -> bool {
    &&& is_default_ssh(c.ssh)
    &&& is_default_socks(c.socks)
    &&& is_default_tun(c.tun)
    &&& is_default_dns(c.dns)
    &&& c.domains@.len() == 0
}

fn owned(s: &str) -> (res: String)
    ensures
        res@ == s@,
{
    string_from_chars(&chars_of(s))
}

impl Default for Ssh {
    fn default() -> (res: Self)
        ensures
            is_default_ssh(res),
    {
        Ssh { target: owned("user@192.168.0.1") }
    }
}

impl Default for Socks {
    fn default() -> (res: Self)
        ensures
            is_default_socks(res),
    {
        Socks { port: 1080 }
    }
}

impl Default for Tun {
    fn default() -> (res: Self)
        ensures
            is_default_tun(res),
    {
        Tun {
            address: owned("10.0.0.2"),
            gateway: owned("10.0.0.1"),
            netmask: owned("255.255.255.0"),
            mtu: 1500,
            min_ttl_secs: 60,
            static_routes: Vec::new(),
        }
    }
}

impl Default for Dns {
    fn default() -> (res: Self)
        ensures
            is_default_dns(res),
    {
        Dns {
            listen_addr: owned("127.0.0.1:53"),
            upstream_addr: owned("1.1.1.1:53"),
            upstream_socks_addr: owned("8.8.8.8:53"),
        }
    }
}

impl Default for Config {
    fn default() -> (res: Self)
        ensures
            is_default_config(res),
    {
        Config {
            ssh: Ssh::default(),
            socks: Socks::default(),
            tun: Tun::default(),
            dns: Dns::default(),
            domains: Vec::new(),
        }
    }
}

/// `127.0.0.1:<port>`.
pub open spec fn spec_socks_addr(port: u16) -> Seq<char> {
    "127.0.0.1:"@ + spec_decimal(port as nat)
}

impl Socks {
    /// `127.0.0.1:<port>`, the address clients use to reach the SOCKS proxy.
    pub fn addr(&self) -> (res: String)
        ensures
            res@ == spec_socks_addr(self.port),
    {
        let mut v = chars_of("127.0.0.1:");
        push_decimal(&mut v, self.port as u64);
        string_from_chars(&v)
    }
}

/// The live configuration: the config once loaded, and the domain masks the
/// user has switched off at runtime (independent of the file, so a reload
/// starts from a clean slate).
pub struct ConfigSlot {
    live: Option<Config>,
    disabled: Vec<String>,
}

impl ConfigSlot {
    /// The loaded config, if any.
    pub closed spec fn live(&self) -> Option<Config> {
        self.live
    }

    /// The masks switched off at runtime.
    pub closed spec fn disabled_masks(&self) -> Set<Seq<char>> {
        Set::new(|m: Seq<char>| exists|i: int| 0 <= i < self.disabled@.len() && #[trigger] self.disabled@[i]@ == m)
    }

    /// A slot with nothing loaded and no mask switched off.
    pub fn new() -> (res: Self)
        ensures
            res.live() is None,
            res.disabled_masks() == Set::<Seq<char>>::empty(),
    {
        let res = ConfigSlot { live: None, disabled: Vec::new() };
        assert(res.disabled_masks() =~= Set::<Seq<char>>::empty());
        res
    }
}

/// The disabled set after switching `mask` on (`enabled`) or off.
pub open spec fn toggled(disabled: Set<Seq<char>>, mask: Seq<char>, enabled: bool) -> Set<Seq<char>> {
    if enabled {
        disabled.remove(mask)
    } else {
        disabled.insert(mask)
    }
}

/// The loaded configuration. The slot must have been loaded.
pub fn config(slot: &ConfigSlot) -> (res: &Config)
    requires
        slot.live() is Some,
    ensures
        *res == slot.live().unwrap(),
{
    slot.live.as_ref().unwrap()
}

/// Whether `mask` is currently switched on.
pub fn domain_enabled(slot: &ConfigSlot, mask: &str) -> (res: bool)
    ensures
        res == !slot.disabled_masks().contains(mask@),
{
    let mut i: usize = 0;
    while i < slot.disabled.len()
        invariant
            0 <= i <= slot.disabled@.len(),
            forall|k: int| 0 <= k < i ==> slot.disabled@[k]@ != mask@,
        decreases slot.disabled@.len() - i,
    {
        if str_eq(slot.disabled[i].as_str(), mask) {
            assert(slot.disabled@[i as int]@ == mask@);
            return false;
        }
        i += 1;
    }
    true
}

/// Switches `mask` on or off at runtime; the loaded config is untouched.
pub fn set_domain_enabled(slot: &mut ConfigSlot, mask: &str, enabled: bool)
    ensures
        final(slot).live() == old(slot).live(),
        final(slot).disabled_masks() == toggled(old(slot).disabled_masks(), mask@, enabled),
{
    let ghost before = slot.disabled_masks();
    if enabled {
        let mut kept: Vec<String> = Vec::new();
        let mut i: usize = 0;
        while i < slot.disabled.len()
            invariant
                0 <= i <= slot.disabled@.len(),
                forall|k: int| 0 <= k < kept@.len() ==> #[trigger] kept@[k]@ != mask@,
                forall|k: int|
                    #![trigger kept@[k]]
                    0 <= k < kept@.len() ==> exists|j: int|
                        0 <= j < i && #[trigger] slot.disabled@[j]@ == kept@[k]@,
                forall|j: int|
                    #![trigger slot.disabled@[j]]
                    0 <= j < i && slot.disabled@[j]@ != mask@ ==> exists|k: int|
                        0 <= k < kept@.len() && #[trigger] kept@[k]@ == slot.disabled@[j]@,
            decreases slot.disabled@.len() - i,
        {
            let m = slot.disabled[i].clone();
            let ghost prev = kept@;
            if !str_eq(m.as_str(), mask) {
                kept.push(m);
                assert(kept@[kept@.len() - 1]@ == slot.disabled@[i as int]@);
            }
            assert forall|j: int|
                #![trigger slot.disabled@[j]]
                0 <= j < i + 1 && slot.disabled@[j]@ != mask@ implies exists|k: int|
                    0 <= k < kept@.len() && #[trigger] kept@[k]@ == slot.disabled@[j]@ by {
                if j == i {
                    assert(kept@[kept@.len() - 1]@ == slot.disabled@[j]@);
                } else {
                    let k = choose|k: int|
                        0 <= k < prev.len() && #[trigger] prev[k]@ == slot.disabled@[j]@;
                    assert(kept@[k] == prev[k]);
                }
            }
            i += 1;
        }
        slot.disabled = kept;
        assert(slot.disabled_masks() =~= before.remove(mask@)) by {
            assert forall|m: Seq<char>| before.remove(mask@).contains(m) implies
                slot.disabled_masks().contains(m) by {
                let j = choose|j: int| 0 <= j < old(slot).disabled@.len() && #[trigger] old(
                    slot,
                ).disabled@[j]@ == m;
                assert(old(slot).disabled@[j]@ != mask@);
            }
        }
    } else {
        if domain_enabled(slot, mask) {
            let owned_mask = string_from_chars(&chars_of(mask));
            slot.disabled.push(owned_mask);
            assert(slot.disabled_masks() =~= before.insert(mask@)) by {
                assert(slot.disabled@[slot.disabled@.len() - 1]@ == mask@);
                assert forall|m: Seq<char>| before.contains(m) implies
                    slot.disabled_masks().contains(m) by {
                    let j = choose|j: int| 0 <= j < old(slot).disabled@.len() && #[trigger] old(
                        slot,
                    ).disabled@[j]@ == m;
                    assert(slot.disabled@[j]@ == m);
                }
            }
        } else {
            assert(before.insert(mask@) =~= before);
        }
    }
}

impl Config {
    /// Puts `read` into the slot, unless a config is already there (the first
    /// load wins). `None` means the file was absent: the built-in defaults
    /// are loaded.
    pub fn load(slot: &mut ConfigSlot, read: Option<Config>)
        ensures
            final(slot).disabled_masks() == old(slot).disabled_masks(),
            old(slot).live() is Some ==> final(slot).live() == old(slot).live(),
            old(slot).live() is None ==> match read {
                Some(c) => final(slot).live() == Some(c),
                None => final(slot).live() matches Some(c) && is_default_config(c),
            },
    {
        if slot.live.is_none() {
            let cfg = match read {
                Some(c) => c,
                None => Config::default(),
            };
            slot.live = Some(cfg);
        }
    }

    /// Swaps in a freshly read config and clears every runtime mask toggle,
    /// so the file becomes authoritative again. The slot must have been
    /// loaded. `None` means the file was absent: the built-in defaults.
    pub fn reload(slot: &mut ConfigSlot, read: Option<Config>)
        requires
            old(slot).live() is Some,
        ensures
            final(slot).disabled_masks() == Set::<Seq<char>>::empty(),
            match read {
                Some(c) => final(slot).live() == Some(c),
                None => final(slot).live() matches Some(c) && is_default_config(c),
            },
    {
        let cfg = match read {
            Some(c) => c,
            None => Config::default(),
        };
        slot.live = Some(cfg);
        slot.disabled = Vec::new();
        assert(slot.disabled_masks() =~= Set::<Seq<char>>::empty());
    }
}

/// Switching a mask on or off is what a later query of it reports, and no
/// other mask changes.
pub proof fn lemma_toggle_then_query(disabled: Set<Seq<char>>, mask: Seq<char>, enabled: bool)
    ensures
        !toggled(disabled, mask, enabled).contains(mask) == enabled,
        forall|other: Seq<char>|
            other != mask ==> (toggled(disabled, mask, enabled).contains(other)
                == disabled.contains(other)),
{
}

/// Switching a mask twice leaves only the second switch in effect.
pub proof fn lemma_toggle_last_wins(
    disabled: Set<Seq<char>>,
    mask: Seq<char>,
    first: bool,
    second: bool,
)
    ensures
        toggled(toggled(disabled, mask, first), mask, second) == toggled(disabled, mask, second),
{
    assert(toggled(toggled(disabled, mask, first), mask, second) =~= toggled(
        disabled,
        mask,
        second,
    ));
}

} // verus!
