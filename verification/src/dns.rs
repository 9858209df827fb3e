//! The local DNS proxy: which queries go through the tunnel, how DNS
//! messages are framed over TCP, which addresses a reply routes, and which
//! masks split-DNS points at the proxy.

use vstd::prelude::*;
use crate::config::{config, domain_enabled, spec_socks_addr, Config, ConfigSlot};
use crate::ip::IpValue;
use crate::text::{
    ascii_lower, ascii_lower_chars, chars_eq, chars_of, concat_str, ends_with, ends_with_chars,
    has_char, slice_chars, starts_with, starts_with_chars, string_from_chars, trim_end_char,
    trim_end_char_chars,
};

verus! {

/// The resolver a query goes to.
pub enum Upstream {
    /// Plain UDP to this resolver.
    Direct(String),
    /// DNS over TCP to `target`, through the SOCKS proxy at `proxy`.
    ViaSocks { proxy: String, target: String },
}

/// One answer record of a reply, as far as routing cares.
#[derive(Clone, Copy, PartialEq, Eq, Debug, Structural)]
pub enum Answer {
    /// An `A` record: address and TTL.
    A(u32, u32),
    /// An `AAAA` record: address and TTL.
    Aaaa(u128, u32),
    /// Any other record.
    Other,
}

/// The name of the first question of a DNS message, as
/// `hickory_proto::op::Message::from_vec` decodes it and
/// `hickory_proto::rr::Name` displays it; `None` when the message does not
/// decode or has no question.
pub uninterp spec fn spec_first_query_name(packet: Seq<u8>) -> Option<Seq<char>>;

/// The answer records of a DNS message as `Message::from_vec` decodes them;
/// `None` when the message does not decode.
pub uninterp spec fn spec_answers(resp: Seq<u8>) -> Option<Seq<Answer>>;

/// `hickory_proto::op::Message::from_vec` and `Query::name()` displayed:
/// the first question's name.
#[verifier::external_body]
fn first_query_name(packet: &[u8]) -> (res: Option<String>)
    ensures
        match res {
            Some(n) => spec_first_query_name(packet@) == Some(n@),
            None => spec_first_query_name(packet@) is None,
        },
{
    match hickory_proto::op::Message::from_vec(packet) {
        Ok(msg) => msg.queries.first().map(|q| q.name().to_string()),
        Err(_) => None,
    }
}

/// `hickory_proto::op::Message::from_vec`: the answer records, each
/// reduced to its address and TTL when it is an `A` or `AAAA` record.
#[verifier::external_body]
fn answers(resp: &[u8]) -> (res: Option<Vec<Answer>>)
    ensures
        match res {
            Some(a) => spec_answers(resp@) == Some(a@),
            None => spec_answers(resp@) is None,
        },
{
    match hickory_proto::op::Message::from_vec(resp) {
        Ok(msg) => Some(
            msg.answers.iter().map(|r| match &r.data {
                hickory_proto::rr::RData::A(ip) => Answer::A(u32::from(ip.0), r.ttl),
                hickory_proto::rr::RData::AAAA(ip) => Answer::Aaaa(u128::from(ip.0), r.ttl),
                _ => Answer::Other,
            }).collect(),
        ),
        Err(_) => None,
    }
}

/// Whether a lowercase name matches a lowercase mask: `**.base` matches
/// `base` and anything ending in `.base`; `*.base` matches `<label>.base`
/// with no dot in the label; anything else matches exactly.
pub open spec fn spec_domain_matches(domain: Seq<char>, mask: Seq<char>) -> bool {
    if starts_with(mask, "**."@) {
        let base = mask.subrange(3, mask.len() as int);
        domain == base || ends_with(domain, "."@ + base)
    } else if starts_with(mask, "*."@) {
        let base = mask.subrange(2, mask.len() as int);
        ends_with(domain, "."@ + base) && !domain.subrange(
            0,
            domain.len() - (base.len() + 1),
        ).contains('.')
    } else {
        domain == mask
    }
}

/// Matches a name against a mask (see [`spec_domain_matches`]).
pub fn domain_matches(domain: &str, mask: &str) -> (res: bool)
    ensures
        res == spec_domain_matches(domain@, mask@),
{
    let d = chars_of(domain);
    let m = chars_of(mask);
    let deep = chars_of("**.");
    let one = chars_of("*.");
    proof {
        reveal_strlit("**.");
        reveal_strlit("*.");
        reveal_strlit(".");
    }
    if starts_with_chars(&m, &deep) {
        let base = slice_chars(&m, 3, m.len());
        let mut dotted = chars_of(".");
        crate::text::extend_chars(&mut dotted, &base);
        chars_eq(&d, &base) || ends_with_chars(&d, &dotted)
    } else if starts_with_chars(&m, &one) {
        let base = slice_chars(&m, 2, m.len());
        let mut dotted = chars_of(".");
        crate::text::extend_chars(&mut dotted, &base);
        if !ends_with_chars(&d, &dotted) {
            return false;
        }
        let prefix = slice_chars(&d, 0, d.len() - dotted.len());
        !has_char(&prefix, '.')
    } else {
        chars_eq(&d, &m)
    }
}

/// Whatever a one-level mask `*.<base>` matches, the any-depth mask
/// `**.<base>` matches too.
pub proof fn lemma_single_within_deep(domain: Seq<char>, base: Seq<char>)
    ensures
        spec_domain_matches(domain, "*."@ + base) ==> spec_domain_matches(domain, "**."@ + base),
{
    reveal_strlit("*.");
    reveal_strlit("**.");
    let one = "*."@ + base;
    let deep = "**."@ + base;
    assert(one.subrange(0, 2) =~= "*."@);
    assert(deep.subrange(0, 3) =~= "**."@);
    assert(!starts_with(one, "**."@)) by {
        if one.len() >= 3 {
            assert(one.subrange(0, 3)[1] == '.');
        }
    }
    assert(one.subrange(2, one.len() as int) =~= base);
    assert(deep.subrange(3, deep.len() as int) =~= base);
}

proof fn lemma_lower_idempotent(s: Seq<char>)
    ensures
        ascii_lower(ascii_lower(s)) == ascii_lower(s),
{
    assert(ascii_lower(ascii_lower(s)) =~= ascii_lower(s));
}

proof fn lemma_lower_trim_dots(s: Seq<char>)
    ensures
        trim_end_char(ascii_lower(s), '.') == ascii_lower(trim_end_char(s, '.')),
    decreases s.len(),
{
    if s.len() > 0 && s.last() == '.' {
        assert(ascii_lower(s).last() == '.');
        assert(ascii_lower(s).drop_last() =~= ascii_lower(s.drop_last()));
        lemma_lower_trim_dots(s.drop_last());
    } else if s.len() > 0 {
        assert(ascii_lower(s).last() != '.');
    } else {
        assert(ascii_lower(s) =~= s);
    }
}

/// Whether a name matches does not depend on the case of its ASCII letters
/// or on trailing dots.
pub proof fn lemma_name_case_and_dots_ignored(slot: ConfigSlot, raw: Seq<char>)
    ensures
        spec_name_matches(slot, ascii_lower(raw)) == spec_name_matches(slot, raw),
        spec_name_matches(slot, raw.push('.')) == spec_name_matches(slot, raw),
{
    lemma_lower_trim_dots(raw);
    lemma_lower_idempotent(trim_end_char(raw, '.'));
    assert(raw.push('.').drop_last() =~= raw);
    assert(ascii_lower(trim_end_char(ascii_lower(raw), '.')) == ascii_lower(trim_end_char(raw, '.')));
}

/// Whether a question name (any case, trailing dots ignored) matches an
/// enabled mask of the loaded config.
pub open spec fn spec_name_matches(slot: ConfigSlot, raw_name: Seq<char>) -> bool {
    let domain = ascii_lower(trim_end_char(raw_name, '.'));
    let masks = slot.live().unwrap().domains@;
    exists|i: int|
        0 <= i < masks.len() && !slot.disabled_masks().contains(#[trigger] masks[i]@)
            && spec_domain_matches(domain, ascii_lower(masks[i]@))
}

/// Whether a question name matches an enabled mask.
pub fn name_matches(slot: &ConfigSlot, raw_name: &str) -> (res: bool)
    requires
        slot.live() is Some,
    ensures
        res == spec_name_matches(*slot, raw_name@),
{
    let trimmed = trim_end_char_chars(&chars_of(raw_name), '.');
    let domain = string_from_chars(&ascii_lower_chars(&trimmed));
    let cfg = config(slot);
    let mut i: usize = 0;
    while i < cfg.domains.len()
        invariant
            0 <= i <= cfg.domains@.len(),
            *cfg == slot.live().unwrap(),
            domain@ == ascii_lower(trim_end_char(raw_name@, '.')),
            forall|k: int|
                0 <= k < i ==> !(!slot.disabled_masks().contains(#[trigger] cfg.domains@[k]@)
                    && spec_domain_matches(domain@, ascii_lower(cfg.domains@[k]@))),
        decreases cfg.domains@.len() - i,
    {
        let mask = cfg.domains[i].as_str();
        if domain_enabled(slot, mask) {
            let lower = string_from_chars(&ascii_lower_chars(&chars_of(mask)));
            if domain_matches(domain.as_str(), lower.as_str()) {
                assert(!slot.disabled_masks().contains(cfg.domains@[i as int]@)
                    && spec_domain_matches(domain@, ascii_lower(cfg.domains@[i as int]@)));
                return true;
            }
        }
        i += 1;
    }
    false
}

/// Whether a raw query packet asks about a name that an enabled mask
/// matches; `false` when the packet does not decode or has no question.
pub fn match_domain(slot: &ConfigSlot, packet: &[u8]) -> (res: bool)
    requires
        slot.live() is Some,
    ensures
        res == match spec_first_query_name(packet@) {
            Some(n) => spec_name_matches(*slot, n),
            None => false,
        },
{
    match first_query_name(packet) {
        Some(name) => name_matches(slot, name.as_str()),
        None => false,
    }
}

/// The addresses (with TTLs) of the `A` and `AAAA` answers, in order.
pub open spec fn spec_addresses(ans: Seq<Answer>) -> Seq<(IpValue, u32)>
    decreases ans.len(),
{
    if ans.len() == 0 {
        Seq::empty()
    } else {
        let rest = spec_addresses(ans.drop_last());
        match ans.last() {
            Answer::A(a, ttl) => rest.push((IpValue::V4(a), ttl)),
            Answer::Aaaa(a, ttl) => rest.push((IpValue::V6(a), ttl)),
            Answer::Other => rest,
        }
    }
}

/// The addresses (with TTLs) of the `A` and `AAAA` answers, in order.
pub fn addresses_from_answers(ans: &[Answer]) -> (res: Vec<(IpValue, u32)>)
    ensures
        res@ == spec_addresses(ans@),
{
    let mut out: Vec<(IpValue, u32)> = Vec::new();
    let mut i: usize = 0;
    while i < ans.len()
        invariant
            0 <= i <= ans@.len(),
            out@ == spec_addresses(ans@.subrange(0, i as int)),
        decreases ans@.len() - i,
    {
        assert(ans@.subrange(0, i + 1).drop_last() =~= ans@.subrange(0, i as int));
        match ans[i] {
            Answer::A(a, ttl) => out.push((IpValue::V4(a), ttl)),
            Answer::Aaaa(a, ttl) => out.push((IpValue::V6(a), ttl)),
            Answer::Other => {},
        }
        i += 1;
    }
    assert(ans@.subrange(0, ans@.len() as int) =~= ans@);
    out
}

/// Addresses are read answer by answer: the addresses of two runs of
/// answers, one after the other, are those of the first run followed by
/// those of the second.
pub proof fn lemma_addresses_concat(a: Seq<Answer>, b: Seq<Answer>)
    ensures
        spec_addresses(a + b) == spec_addresses(a) + spec_addresses(b),
    decreases b.len(),
{
    if b.len() == 0 {
        assert(a + b =~= a);
        assert(spec_addresses(a) + Seq::<(IpValue, u32)>::empty() =~= spec_addresses(a));
    } else {
        lemma_addresses_concat(a, b.drop_last());
        assert((a + b).drop_last() =~= a + b.drop_last());
        assert((a + b).last() == b.last());
        let x = spec_addresses(a);
        let y = spec_addresses(b.drop_last());
        match b.last() {
            Answer::A(v, t) => {
                assert((x + y).push((IpValue::V4(v), t)) =~= x + y.push((IpValue::V4(v), t)));
            },
            Answer::Aaaa(v, t) => {
                assert((x + y).push((IpValue::V6(v), t)) =~= x + y.push((IpValue::V6(v), t)));
            },
            Answer::Other => {},
        }
    }
}

/// One answer yields one address with its TTL when it is an `A` or `AAAA`
/// record, and nothing otherwise.
pub proof fn lemma_addresses_single(x: Answer)
    ensures
        spec_addresses(seq![x]) == match x {
            Answer::A(a, ttl) => seq![(IpValue::V4(a), ttl)],
            Answer::Aaaa(a, ttl) => seq![(IpValue::V6(a), ttl)],
            Answer::Other => Seq::<(IpValue, u32)>::empty(),
        },
{
    assert(seq![x].drop_last() =~= Seq::<Answer>::empty());
    assert(seq![x].last() == x);
    assert(spec_addresses(Seq::<Answer>::empty()) == Seq::<(IpValue, u32)>::empty());
    assert(seq![x].len() == 1);
    match x {
        Answer::A(a, ttl) => {
            assert(Seq::<(IpValue, u32)>::empty().push((IpValue::V4(a), ttl)) =~= seq![(IpValue::V4(a), ttl)]);
        },
        Answer::Aaaa(a, ttl) => {
            assert(Seq::<(IpValue, u32)>::empty().push((IpValue::V6(a), ttl)) =~= seq![(IpValue::V6(a), ttl)]);
        },
        Answer::Other => {},
    }
}

/// When every answer is an `A` or `AAAA` record, each yields exactly one
/// entry: the i-th entry is the address and TTL of the i-th answer.
pub proof fn lemma_addresses_one_per_answer(ans: Seq<Answer>)
    requires
        forall|i: int| 0 <= i < ans.len() ==> !(#[trigger] ans[i] is Other),
    ensures
        spec_addresses(ans).len() == ans.len(),
        forall|i: int|
            0 <= i < ans.len() ==> #[trigger] spec_addresses(ans)[i] == match ans[i] {
                Answer::A(a, ttl) => (IpValue::V4(a), ttl),
                Answer::Aaaa(a, ttl) => (IpValue::V6(a), ttl),
                Answer::Other => (IpValue::V4(0), 0u32),
            },
    decreases ans.len(),
{
    if ans.len() > 0 {
        let init = ans.drop_last();
        assert forall|i: int| 0 <= i < init.len() implies !(#[trigger] init[i] is Other) by {
            assert(init[i] == ans[i]);
        }
        lemma_addresses_one_per_answer(init);
        assert(ans.last() == ans[ans.len() - 1]);
        assert forall|i: int| 0 <= i < ans.len() implies #[trigger] spec_addresses(ans)[i] == match ans[i] {
            Answer::A(a, ttl) => (IpValue::V4(a), ttl),
            Answer::Aaaa(a, ttl) => (IpValue::V6(a), ttl),
            Answer::Other => (IpValue::V4(0), 0u32),
        } by {
            if i < init.len() {
                assert(init[i] == ans[i]);
            }
        }
    }
}

/// The addresses a raw reply resolves to; none when it does not decode.
pub fn get_addresses_from_response(resp: &[u8]) -> (res: Vec<(IpValue, u32)>)
    ensures
        res@ == match spec_answers(resp@) {
            Some(a) => spec_addresses(a),
            None => Seq::empty(),
        },
{
    match answers(resp) {
        Some(a) => addresses_from_answers(&a),
        None => Vec::new(),
    }
}

/// A DNS message framed for TCP: its length as two big-endian bytes (the
/// low 16 bits of the length), then the message.
pub open spec fn spec_frame(msg: Seq<u8>) -> Seq<u8> {
    seq![((msg.len() / 256) % 256) as u8, (msg.len() % 256) as u8] + msg
}

/// Frames a message for DNS over TCP.
pub fn frame_message(msg: &[u8]) -> (res: Vec<u8>)
    ensures
        res@ == spec_frame(msg@),
{
    let n = msg.len();
    let mut out: Vec<u8> = Vec::new();
    out.push(((n / 256) % 256) as u8);
    out.push((n % 256) as u8);
    let mut i: usize = 0;
    while i < msg.len()
        invariant
            0 <= i <= msg@.len(),
            n == msg@.len(),
            out@ == seq![((n / 256) % 256) as u8, (n % 256) as u8] + msg@.subrange(0, i as int),
        decreases msg@.len() - i,
    {
        out.push(msg[i]);
        i += 1;
        assert(msg@.subrange(0, i as int) =~= msg@.subrange(0, i - 1).push(msg@[i - 1]));
    }
    assert(msg@.subrange(0, msg@.len() as int) =~= msg@);
    out
}

/// The message length that a TCP frame's two-byte prefix announces.
pub fn frame_length(prefix: [u8; 2]) -> (res: usize)
    ensures
        res == prefix[0] as nat * 256 + prefix[1] as nat,
{
    (prefix[0] as usize) * 256 + (prefix[1] as usize)
}

/// Reading back the prefix of a framed message gives the message length
/// (for messages that fit a frame), and the message follows it unchanged.
pub proof fn lemma_frame_roundtrip(msg: Seq<u8>)
    requires
        msg.len() <= 0xffff,
    ensures
        spec_frame(msg)[0] as nat * 256 + spec_frame(msg)[1] as nat == msg.len(),
        spec_frame(msg).subrange(2, spec_frame(msg).len() as int) == msg,
{
    assert(spec_frame(msg).subrange(2, spec_frame(msg).len() as int) =~= msg);
}

/// The DNS-over-TCP forwarder.
pub struct Forwarder;

impl Forwarder {
    /// The query framed for the SOCKS-side resolver.
    pub fn frame_query(packet: &[u8]) -> (res: Vec<u8>)
        ensures
            res@ == spec_frame(packet@),
    {
        frame_message(packet)
    }

    /// The reply length announced by the resolver's two-byte prefix.
    pub fn reply_length(prefix: [u8; 2]) -> (res: usize)
        ensures
            res == prefix[0] as nat * 256 + prefix[1] as nat,
    {
        frame_length(prefix)
    }
}

/// The query handler shared by the UDP and TCP listeners.
pub struct Handler;

impl Handler {
    /// Where a query goes: through the SOCKS proxy to the SOCKS-side
    /// resolver when its name matched, else straight to the plain resolver.
    pub fn upstream(cfg: &Config, matched: bool) -> (res: Upstream)
        ensures
            matched ==> (res matches Upstream::ViaSocks { proxy, target } && proxy@ == spec_socks_addr(
                cfg.socks.port,
            ) && target@ == cfg.dns.upstream_socks_addr@),
            !matched ==> (res matches Upstream::Direct(a) && a@ == cfg.dns.upstream_addr@),
    {
        if matched {
            Upstream::ViaSocks {
                proxy: cfg.socks.addr(),
                target: string_from_chars(&chars_of(cfg.dns.upstream_socks_addr.as_str())),
            }
        } else {
            Upstream::Direct(string_from_chars(&chars_of(cfg.dns.upstream_addr.as_str())))
        }
    }

    /// The host routes a reply calls for: the resolved addresses of a
    /// matched query, none otherwise.
    pub fn routes_to_add(matched: bool, resp: &[u8]) -> (res: Vec<(IpValue, u32)>)
        ensures
            matched ==> res@ == match spec_answers(resp@) {
                Some(a) => spec_addresses(a),
                None => Seq::empty(),
            },
            !matched ==> res@.len() == 0,
    {
        if matched {
            get_addresses_from_response(resp)
        } else {
            Vec::new()
        }
    }
}

/// The UDP + TCP DNS server.
pub struct Server;

impl Server {
    /// Splits the configured masks into those switched on (split-DNS points
    /// them at the proxy) and those switched off (their split-DNS entries are
    /// cleared), keeping the config's order.
    pub fn split_dns_masks(slot: &ConfigSlot) -> (res: (Vec<String>, Vec<String>))
        requires
            slot.live() is Some,
        ensures
            res.0@.map_values(|s: String| s@) == slot.live().unwrap().domains@.map_values(
                |s: String| s@,
            ).filter(|m: Seq<char>| !slot.disabled_masks().contains(m)),
            res.1@.map_values(|s: String| s@) == slot.live().unwrap().domains@.map_values(
                |s: String| s@,
            ).filter(|m: Seq<char>| slot.disabled_masks().contains(m)),
    {
        let cfg = config(slot);
        let ghost all = cfg.domains@.map_values(|s: String| s@);
        let ghost on = |m: Seq<char>| !slot.disabled_masks().contains(m);
        let ghost off = |m: Seq<char>| slot.disabled_masks().contains(m);
        let mut enabled: Vec<String> = Vec::new();
        let mut disabled: Vec<String> = Vec::new();
        let mut i: usize = 0;
        while i < cfg.domains.len()
            invariant
                0 <= i <= cfg.domains@.len(),
                *cfg == slot.live().unwrap(),
                all == cfg.domains@.map_values(|s: String| s@),
                on == (|m: Seq<char>| !slot.disabled_masks().contains(m)),
                off == (|m: Seq<char>| slot.disabled_masks().contains(m)),
                enabled@.map_values(|s: String| s@) == all.subrange(0, i as int).filter(on),
                disabled@.map_values(|s: String| s@) == all.subrange(0, i as int).filter(off),
            decreases cfg.domains@.len() - i,
        {
            let mask = cfg.domains[i].clone();
            proof {
                assert(all.subrange(0, i + 1).drop_last() =~= all.subrange(0, i as int));
                reveal_with_fuel(Seq::filter, 1);
            }
            let ghost e0 = enabled@.map_values(|s: String| s@);
            let ghost d0 = disabled@.map_values(|s: String| s@);
            if domain_enabled(slot, mask.as_str()) {
                enabled.push(mask);
                assert(enabled@.map_values(|s: String| s@) =~= e0.push(all[i as int]));
            } else {
                disabled.push(mask);
                assert(disabled@.map_values(|s: String| s@) =~= d0.push(all[i as int]));
            }
            i += 1;
        }
        assert(all.subrange(0, cfg.domains@.len() as int) =~= all);
        (enabled, disabled)
    }

    /// The reply framed for the TCP client.
    pub fn frame_reply(resp: &[u8]) -> (res: Vec<u8>)
        ensures
            res@ == spec_frame(resp@),
    {
        frame_message(resp)
    }
}

/// Every configured mask is either pointed at the proxy or cleared, never
/// both: the two lists of the split hold exactly the configured masks.
pub proof fn lemma_split_partitions(masks: Seq<Seq<char>>, off: Set<Seq<char>>)
    ensures
        ({
            let applied = masks.filter(|m: Seq<char>| !off.contains(m));
            let cleared = masks.filter(|m: Seq<char>| off.contains(m));
            &&& forall|m: Seq<char>| masks.contains(m) <==> (applied.contains(m) || cleared.contains(m))
            &&& forall|m: Seq<char>| !(applied.contains(m) && cleared.contains(m))
        }),
{
    let on = |m: Seq<char>| !off.contains(m);
    let gone = |m: Seq<char>| off.contains(m);
    let applied = masks.filter(on);
    let cleared = masks.filter(gone);
    assert forall|m: Seq<char>| masks.contains(m) <==> (applied.contains(m) || cleared.contains(m)) by {
        if masks.contains(m) {
            let i = choose|i: int| 0 <= i < masks.len() && masks[i] == m;
            if off.contains(m) {
                masks.lemma_filter_contains(gone, i);
            } else {
                masks.lemma_filter_contains(on, i);
            }
        }
        if applied.contains(m) {
            masks.lemma_filter_contains_rev(on, m);
        }
        if cleared.contains(m) {
            masks.lemma_filter_contains_rev(gone, m);
        }
    }
    assert forall|m: Seq<char>| !(applied.contains(m) && cleared.contains(m)) by {
        if applied.contains(m) && cleared.contains(m) {
            let i = choose|i: int| 0 <= i < applied.len() && applied[i] == m;
            let j = choose|j: int| 0 <= j < cleared.len() && cleared[j] == m;
            masks.lemma_filter_pred(on, i);
            masks.lemma_filter_pred(gone, j);
        }
    }
}

} // verus!
