//! Matching of domain names against domain patterns and of IP addresses
//! against IP/subnet rules.
//!
//! Domain patterns: `*.example.com` matches exactly one extra label,
//! `**.example.com` matches `example.com` and any depth below it, anything
//! else matches exactly. Matching ignores case and a trailing dot.

use vstd::prelude::*;
use vstd::arithmetic::power2::pow2;
use crate::ip::IpValue;
use crate::text::{
    chars_of, ends_with, ends_with_chars, extend_chars, has_char, slice_chars, starts_with,
    starts_with_chars, string_from_chars, trim_end_char, trim_end_char_chars, trim_start_char,
    trim_start_char_chars, chars_eq,
};

verus! {

/// An IP network: an address and a prefix length.
#[derive(Clone, Copy, PartialEq, Eq, Debug, Structural)]
pub struct IpNetValue {
    pub addr: IpValue,
    pub prefix_len: u8,
}

/// The number of bits of an address.
pub open spec fn addr_bits(a: IpValue) -> nat {
    match a {
        IpValue::V4(_) => 32,
        IpValue::V6(_) => 128,
    }
}

/// An address as a number.
pub open spec fn addr_num(a: IpValue) -> nat {
    match a {
        IpValue::V4(x) => x as nat,
        IpValue::V6(x) => x as nat,
    }
}

/// Whether `addr` lies in `net`: same family, and equal in the first
/// `prefix_len` bits (between the network and the broadcast address).
pub open spec fn spec_net_contains(net: IpNetValue, addr: IpValue) -> bool {
    let w = addr_bits(net.addr);
    &&& addr_bits(addr) == w
    &&& net.prefix_len <= w
    &&& addr_num(addr) / pow2((w - net.prefix_len) as nat) == addr_num(net.addr) / pow2(
        (w - net.prefix_len) as nat,
    )
}

/// What `str::parse::<ipnet::IpNet>` gives for a string (`a.b.c.d/n` or an
/// IPv6 CIDR), as plain values.
pub uninterp spec fn spec_ipnet_from_str(s: Seq<char>) -> Option<IpNetValue>;

/// The host network of an address: `/32` or `/128`
/// (`ipnet::IpNet::from(IpAddr)`).
pub open spec fn host_net(a: IpValue) -> IpNetValue {
    IpNetValue { addr: a, prefix_len: addr_bits(a) as u8 }
}

/// `str::parse::<ipnet::IpNet>`: the network a CIDR string denotes. The
/// parser reads a prefix length below 33 (IPv4) or 129 (IPv6).
#[verifier::external_body]
fn ipnet_from_str(s: &str) -> (res: Option<IpNetValue>)
    ensures
        res == spec_ipnet_from_str(s@),
        res matches Some(n) ==> n.prefix_len <= addr_bits(n.addr),
{
    match s.parse::<ipnet::IpNet>() {
        Ok(ipnet::IpNet::V4(n)) => Some(
            IpNetValue { addr: IpValue::V4(u32::from(n.addr())), prefix_len: n.prefix_len() },
        ),
        Ok(ipnet::IpNet::V6(n)) => Some(
            IpNetValue { addr: IpValue::V6(u128::from(n.addr())), prefix_len: n.prefix_len() },
        ),
        Err(_) => None,
    }
}

/// Whether `addr` lies in `net` (`ipnet::IpNet::contains`: between the
/// network and the broadcast address, never across families).
pub fn net_contains(net: IpNetValue, addr: IpValue) -> (res: bool)
    requires
        net.prefix_len <= addr_bits(net.addr),
    ensures
        res == spec_net_contains(net, addr),
{
    match (net.addr, addr) {
        (IpValue::V4(n), IpValue::V4(a)) => {
            let shift: u32 = 32 - net.prefix_len as u32;
            if shift == 32 {
                proof {
                    vstd::arithmetic::power2::lemma2_to64();
                    vstd::arithmetic::div_mod::lemma_basic_div(n as int, pow2(32) as int);
                    vstd::arithmetic::div_mod::lemma_basic_div(a as int, pow2(32) as int);
                }
                true
            } else {
                proof {
                    vstd::bits::lemma_u32_shr_is_div(n, shift);
                    vstd::bits::lemma_u32_shr_is_div(a, shift);
                }
                (n >> shift) == (a >> shift)
            }
        },
        (IpValue::V6(n), IpValue::V6(a)) => {
            let shift: u128 = 128 - net.prefix_len as u128;
            if shift == 128 {
                proof {
                    vstd::arithmetic::power2::lemma2_to64();
                    vstd::arithmetic::power2::lemma_pow2_adds(64, 64);
                    vstd::arithmetic::div_mod::lemma_basic_div(n as int, pow2(128) as int);
                    vstd::arithmetic::div_mod::lemma_basic_div(a as int, pow2(128) as int);
                }
                true
            } else {
                proof {
                    vstd::bits::lemma_u128_shr_is_div(n, shift);
                    vstd::bits::lemma_u128_shr_is_div(a, shift);
                }
                (n >> shift) == (a >> shift)
            }
        },
        _ => false,
    }
}

/// What an IP rule denotes, given what the CIDR parse and the plain address
/// parse (`str::parse::<std::net::IpAddr>`) of its text gave: a CIDR, or a
/// single address as its host network; `None` for anything else.
pub open spec fn spec_ip_rule(net: Option<IpNetValue>, addr: Option<IpValue>) -> Option<IpNetValue> {
    match net {
        Some(n) => Some(n),
        None => match addr {
            Some(a) => Some(host_net(a)),
            None => None,
        },
    }
}

/// Parses `1.2.3.4/24`, `fd00::/8` and the like as a CIDR first; failing
/// that, takes `addr`, the plain address parse of the same text (`1.2.3.4`,
/// `::1`), as a host network.
pub fn parse_ip_rule(s: &str, addr: Option<IpValue>) -> (res: Option<IpNetValue>)
    ensures
        res == spec_ip_rule(spec_ipnet_from_str(s@), addr),
        res matches Some(n) ==> n.prefix_len <= addr_bits(n.addr),
{
    match ipnet_from_str(s) {
        Some(n) => Some(n),
        None => match addr {
            Some(a) => {
                let p: u8 = match a {
                    IpValue::V4(_) => 32,
                    IpValue::V6(_) => 128,
                };
                Some(IpNetValue { addr: a, prefix_len: p })
            },
            None => None,
        },
    }
}

/// What `str::to_lowercase` gives (full Unicode lowercase mapping).
pub uninterp spec fn spec_to_lowercase(s: Seq<char>) -> Seq<char>;

/// `str::to_lowercase`: the Unicode lowercase form of a string.
#[verifier::external_body]
fn to_lowercase(s: &str) -> (res: String)
    ensures
        res@ == spec_to_lowercase(s@),
{
    s.to_lowercase()
}

/// A parsed domain pattern.
pub enum DomainPattern {
    /// Matches exactly this name.
    Exact(String),
    /// `*.example.com`: the suffix `.example.com` after one label.
    Single(String),
    /// `**.example.com`: the suffix `.example.com`, at any depth, or the
    /// base name itself.
    Deep(String),
}

/// The pattern a mask denotes.
pub open spec fn spec_parse_pattern(s: Seq<char>) -> (u8, Seq<char>) {
    if starts_with(s, "**."@) {
        (2, "."@ + spec_to_lowercase(s.subrange(3, s.len() as int)))
    } else if starts_with(s, "*."@) {
        (1, "."@ + spec_to_lowercase(s.subrange(2, s.len() as int)))
    } else {
        (0, spec_to_lowercase(s))
    }
}

/// A pattern as its kind (0 exact, 1 one level, 2 any depth) and text.
pub open spec fn pattern_view(p: DomainPattern) -> (u8, Seq<char>) {
    match p {
        DomainPattern::Exact(e) => (0, e@),
        DomainPattern::Single(s) => (1, s@),
        DomainPattern::Deep(s) => (2, s@),
    }
}

/// Whether a lowercase name `d` matches a pattern.
pub open spec fn spec_pattern_matches(p: (u8, Seq<char>), d: Seq<char>) -> bool {
    if p.0 == 0 {
        d == p.1
    } else if p.0 == 1 {
        ends_with(d, p.1) && {
            let prefix = d.subrange(0, d.len() - p.1.len());
            prefix.len() > 0 && !prefix.contains('.')
        }
    } else {
        d == trim_start_char(p.1, '.') || ends_with(d, p.1)
    }
}

impl DomainPattern {
    /// Parses a mask: `**.` and `*.` prefixes, the rest lowercased.
    pub fn parse(s: &str) -> (res: Self)
        ensures
            pattern_view(res) == spec_parse_pattern(s@),
    {
        let cs = chars_of(s);
        let deep = chars_of("**.");
        let one = chars_of("*.");
        proof {
            reveal_strlit("**.");
            reveal_strlit("*.");
        }
        if starts_with_chars(&cs, &deep) {
            let rest = string_from_chars(&slice_chars(&cs, 3, cs.len()));
            let lower = to_lowercase(rest.as_str());
            let mut v = chars_of(".");
            extend_chars(&mut v, &chars_of(lower.as_str()));
            DomainPattern::Deep(string_from_chars(&v))
        } else if starts_with_chars(&cs, &one) {
            let rest = string_from_chars(&slice_chars(&cs, 2, cs.len()));
            let lower = to_lowercase(rest.as_str());
            let mut v = chars_of(".");
            extend_chars(&mut v, &chars_of(lower.as_str()));
            DomainPattern::Single(string_from_chars(&v))
        } else {
            DomainPattern::Exact(to_lowercase(s))
        }
    }

    /// Whether `domain` (in any case) matches the pattern.
    pub fn matches(&self, domain: &str) -> (res: bool)
        ensures
            res == spec_pattern_matches(pattern_view(*self), spec_to_lowercase(domain@)),
    {
        let lower = to_lowercase(domain);
        let d = chars_of(lower.as_str());
        match self {
            DomainPattern::Exact(e) => chars_eq(&d, &chars_of(e.as_str())),
            DomainPattern::Single(suffix) => {
                let suf = chars_of(suffix.as_str());
                if !ends_with_chars(&d, &suf) {
                    return false;
                }
                let prefix = slice_chars(&d, 0, d.len() - suf.len());
                prefix.len() > 0 && !has_char(&prefix, '.')
            },
            DomainPattern::Deep(suffix) => {
                let suf = chars_of(suffix.as_str());
                let base = trim_start_char_chars(&suf, '.');
                chars_eq(&d, &base) || ends_with_chars(&d, &suf)
            },
        }
    }
}

/// The rule each IP rule text denotes, with the plain address parse of the
/// same text.
pub open spec fn rules_of(ips: Seq<String>, addrs: Seq<Option<IpValue>>) -> Seq<Option<IpNetValue>> {
    Seq::new(ips.len(), |i: int| spec_ip_rule(spec_ipnet_from_str(ips[i]@), addrs[i]))
}

/// Combined matcher for domain patterns and IP/subnet rules.
pub struct Matcher {
    domains: Vec<DomainPattern>,
    nets: Vec<IpNetValue>,
}

impl Matcher {
    /// The patterns, in order.
    pub closed spec fn patterns(&self) -> Seq<(u8, Seq<char>)> {
        self.domains@.map_values(|p: DomainPattern| pattern_view(p))
    }

    /// The IP rules that parsed, in order.
    pub closed spec fn nets(&self) -> Seq<IpNetValue> {
        self.nets@
    }

    /// Whether every kept network has a valid prefix length.
    pub closed spec fn wf(&self) -> bool {
        forall|i: int| 0 <= i < self.nets@.len() ==> #[trigger] self.nets@[i].prefix_len <= addr_bits(
            self.nets@[i].addr,
        )
    }

    /// Parses every domain pattern, and every IP rule that parses (the
    /// others are ignored). `addrs[i]` is the plain address parse
    /// (`str::parse::<std::net::IpAddr>`) of `ips[i]`.
    pub fn new(domains: &[String], ips: &[String], addrs: &[Option<IpValue>]) -> (res: Self)
        requires
            addrs@.len() == ips@.len(),
        ensures
            res.wf(),
            res.patterns().len() == domains@.len(),
            forall|i: int|
                0 <= i < domains@.len() ==> #[trigger] res.patterns()[i] == spec_parse_pattern(
                    domains@[i]@,
                ),
            res.nets() == rules_of(ips@, addrs@).filter(
                |o: Option<IpNetValue>| o is Some,
            ).map_values(|o: Option<IpNetValue>| o.unwrap()),
    {
        let mut pats: Vec<DomainPattern> = Vec::new();
        let mut i: usize = 0;
        while i < domains.len()
            invariant
                0 <= i <= domains@.len(),
                pats@.len() == i,
                forall|k: int|
                    0 <= k < i ==> #[trigger] pattern_view(pats@[k]) == spec_parse_pattern(
                        domains@[k]@,
                    ),
            decreases domains@.len() - i,
        {
            pats.push(DomainPattern::parse(domains[i].as_str()));
            i += 1;
        }
        let ghost parsed = rules_of(ips@, addrs@);
        let mut nets: Vec<IpNetValue> = Vec::new();
        let mut j: usize = 0;
        while j < ips.len()
            invariant
                0 <= j <= ips@.len(),
                parsed == rules_of(ips@, addrs@),
                addrs@.len() == ips@.len(),
                nets@ == parsed.subrange(0, j as int).filter(|o: Option<IpNetValue>| o is Some).map_values(
                    |o: Option<IpNetValue>| o.unwrap(),
                ),
                forall|k: int| 0 <= k < nets@.len() ==> #[trigger] nets@[k].prefix_len <= addr_bits(
                    nets@[k].addr,
                ),
            decreases ips@.len() - j,
        {
            let r = parse_ip_rule(ips[j].as_str(), addrs[j]);
            proof {
                let sub = parsed.subrange(0, j as int);
                let next = parsed.subrange(0, j + 1);
                assert(next.drop_last() =~= sub);
                assert(next.last() == r);
                reveal_with_fuel(Seq::filter, 1);
            }
            match r {
                Some(n) => {
                    nets.push(n);
                },
                None => {},
            }
            proof {
                let f = |o: Option<IpNetValue>| o is Some;
                let g = |o: Option<IpNetValue>| o.unwrap();
                let sub = parsed.subrange(0, j as int);
                let next = parsed.subrange(0, j + 1);
                assert(next.filter(f) == if r is Some {
                    sub.filter(f).push(r)
                } else {
                    sub.filter(f)
                });
                assert(nets@ =~= next.filter(f).map_values(g));
            }
            j += 1;
        }
        assert(parsed.subrange(0, ips@.len() as int) =~= parsed);
        let res = Matcher { domains: pats, nets };
        assert forall|k: int| 0 <= k < domains@.len() implies #[trigger] res.patterns()[k]
            == spec_parse_pattern(domains@[k]@) by {}
        res
    }

    /// Whether `domain` (any case, trailing dots ignored) matches some
    /// pattern.
    pub fn matches_domain(&self, domain: &str) -> (res: bool)
        ensures
            res == domain_matched(*self, domain@),
    {
        let trimmed = string_from_chars(&trim_end_char_chars(&chars_of(domain), '.'));
        let mut i: usize = 0;
        while i < self.domains.len()
            invariant
                0 <= i <= self.domains@.len(),
                trimmed@ == trim_end_char(domain@, '.'),
                forall|k: int|
                    0 <= k < i ==> !spec_pattern_matches(
                        #[trigger] self.patterns()[k],
                        spec_to_lowercase(trimmed@),
                    ),
            decreases self.domains@.len() - i,
        {
            if self.domains[i].matches(trimmed.as_str()) {
                assert(spec_pattern_matches(self.patterns()[i as int], spec_to_lowercase(trimmed@)));
                return true;
            }
            i += 1;
        }
        false
    }

    /// Whether `addr` lies in some IP rule.
    pub fn matches_ip(&self, addr: IpValue) -> (res: bool)
        requires
            self.wf(),
        ensures
            res == exists|i: int|
                0 <= i < self.nets().len() && spec_net_contains(#[trigger] self.nets()[i], addr),
    {
        let mut i: usize = 0;
        while i < self.nets.len()
            invariant
                0 <= i <= self.nets@.len(),
                self.wf(),
                forall|k: int| 0 <= k < i ==> !spec_net_contains(#[trigger] self.nets()[k], addr),
            decreases self.nets@.len() - i,
        {
            assert(self.nets@[i as int].prefix_len <= addr_bits(self.nets@[i as int].addr));
            if net_contains(self.nets[i], addr) {
                assert(spec_net_contains(self.nets()[i as int], addr));
                return true;
            }
            i += 1;
        }
        false
    }
}

/// Whether `domain` (any case, trailing dots ignored) matches one of the
/// matcher's patterns.
pub open spec fn domain_matched(m: Matcher, domain: Seq<char>) -> bool {
    exists|i: int|
        0 <= i < m.patterns().len() && spec_pattern_matches(
            #[trigger] m.patterns()[i],
            spec_to_lowercase(trim_end_char(domain, '.')),
        )
}

/// Trailing dots of a name do not change whether it matches.
pub proof fn lemma_trailing_dot_ignored(m: Matcher, domain: Seq<char>)
    ensures
        domain_matched(m, domain.push('.')) == domain_matched(m, domain),
{
    assert(domain.push('.').drop_last() =~= domain);
}

/// Whatever a one-level mask `*.<base>` matches, the any-depth mask
/// `**.<base>` matches too.
pub proof fn lemma_single_within_deep(base: Seq<char>, d: Seq<char>)
    ensures
        spec_pattern_matches(spec_parse_pattern("*."@ + base), d) ==> spec_pattern_matches(
            spec_parse_pattern("**."@ + base),
            d,
        ),
{
    reveal_strlit("*.");
    reveal_strlit("**.");
    let one = "*."@ + base;
    let deep = "**."@ + base;
    assert(one.subrange(0, 2) =~= "*."@);
    assert(deep.subrange(0, 3) =~= "**."@);
    assert(!starts_with(one, "**."@)) by {
        if one.len() >= 3 {
            assert(one.subrange(0, 3)[1] == '.');
        }
    }
    assert(one.subrange(2, one.len() as int) =~= base);
    assert(deep.subrange(3, deep.len() as int) =~= base);
}

/// A host network contains exactly its own address.
pub proof fn lemma_host_net_contains(a: IpValue, b: IpValue)
    ensures
        spec_net_contains(host_net(a), b) <==> a == b,
{
    vstd::arithmetic::power2::lemma2_to64();
    assert(pow2(0) == 1);
    vstd::arithmetic::div_mod::lemma_div_basics(addr_num(a) as int);
    vstd::arithmetic::div_mod::lemma_div_basics(addr_num(b) as int);
    match (a, b) {
        (IpValue::V4(x), IpValue::V4(y)) => {
            assert(host_net(a).prefix_len == 32);
        },
        (IpValue::V6(x), IpValue::V6(y)) => {
            assert(host_net(a).prefix_len == 128);
        },
        _ => {},
    }
}

/// An IP rule whose text is a CIDR denotes that network, whatever the plain
/// address parse gave; text that is neither gives no rule.
pub proof fn lemma_cidr_rule(n: IpNetValue, addr: Option<IpValue>)
    ensures
        spec_ip_rule(Some(n), addr) == Some(n),
        spec_ip_rule(None, None::<IpValue>) is None,
{
}

/// An IP rule that is not a CIDR but a bare address denotes the host
/// network of the address (`/32` for IPv4, `/128` for IPv6): it contains
/// that address and no other.
pub proof fn lemma_bare_address_rule(a: IpValue, b: IpValue)
    ensures
        ({
            let r = spec_ip_rule(None, Some(a));
            &&& r is Some
            &&& r.unwrap().addr == a
            &&& r.unwrap().prefix_len == (if a is V4 { 32u8 } else { 128u8 })
            &&& (spec_net_contains(r.unwrap(), b) <==> b == a)
        }),
{
    lemma_host_net_contains(a, b);
}

/// A `/0` network contains every address of its family.
pub proof fn lemma_zero_prefix_contains_family(net: IpNetValue, addr: IpValue)
    requires
        net.prefix_len == 0,
        addr_bits(addr) == addr_bits(net.addr),
    ensures
        spec_net_contains(net, addr),
{
    match net.addr {
        IpValue::V4(_) => {
            vstd::arithmetic::power2::lemma2_to64();
            assert(pow2(32) == 0x1_0000_0000);
        },
        IpValue::V6(_) => {
            vstd::arithmetic::power2::lemma_pow2_adds(64, 64);
            vstd::arithmetic::power2::lemma2_to64();
            assert(pow2(64) == 0x1_0000_0000_0000_0000);
        },
    }
    let p = pow2((addr_bits(net.addr) - net.prefix_len) as nat);
    vstd::arithmetic::div_mod::lemma_basic_div(addr_num(addr) as int, p as int);
    vstd::arithmetic::div_mod::lemma_basic_div(addr_num(net.addr) as int, p as int);
}

} // verus!
