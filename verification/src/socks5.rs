//! The SOCKS5 protocol (RFC 1928, no-authentication CONNECT only) as the
//! standalone proxy speaks it: the client handshake it accepts, the routing
//! decision for a target, and the handshake it performs with the upstream
//! proxy.

use vstd::prelude::*;
use vstd::arithmetic::power2::{pow2, lemma2_to64, lemma_pow2_adds};
use crate::ip::IpValue;
use crate::matcher::Matcher;
use crate::text::utf8_lossy;
use crate::wire::{
    be_bytes, be_value, lemma_be_bytes_index, lemma_be_bytes_len, lemma_be_roundtrip,
    lemma_be_value_bound, lemma_be_value_bytes, push_be, read_be,
};

verus! {

pub const VER: u8 = 5;
pub const METHOD_NO_AUTH: u8 = 0x00;
pub const METHOD_NONE: u8 = 0xFF;
pub const CMD_CONNECT: u8 = 0x01;
pub const ATYP_IPV4: u8 = 0x01;
pub const ATYP_DOMAIN: u8 = 0x03;
pub const ATYP_IPV6: u8 = 0x04;
pub const REP_OK: u8 = 0x00;
pub const REP_FAIL: u8 = 0x01;
pub const REP_NO_CMD: u8 = 0x07;

/// Where a client wants to connect.
pub enum Target {
    Ip(IpValue, u16),
    Domain(String, u16),
}

/// A target as plain values.
pub enum TargetView {
    Ip(IpValue, u16),
    Domain(Seq<char>, u16),
}

impl Target {
    /// The target as plain values.
    pub open spec fn view(&self) -> TargetView {
        match self {
            Target::Ip(a, p) => TargetView::Ip(*a, *p),
            Target::Domain(h, p) => TargetView::Domain(h@, *p),
        }
    }
}

/// Why a handshake ended.
#[derive(Clone, Copy, PartialEq, Eq, Debug, Structural)]
pub enum SocksError {
    /// The client's greeting is not SOCKS version 5.
    NotSocks5,
    /// The client's request is not SOCKS version 5.
    BadVersion,
    /// The request's address type is not IPv4, domain or IPv6.
    UnsupportedAddressType,
    /// The upstream proxy wants authentication.
    UpstreamRequiresAuth,
    /// The upstream proxy refused the CONNECT with this code.
    UpstreamRefused(u8),
}

/// What follows a request header's address type byte.
#[derive(Clone, Copy, PartialEq, Eq, Debug, Structural)]
pub enum AddrShape {
    /// This many address bytes.
    Fixed(usize),
    /// One length byte, then that many bytes.
    LengthPrefixed,
}

/// Checks the client greeting `[VER, NMETHODS]`; gives how many method
/// bytes follow.
pub fn greeting(hdr: [u8; 2]) -> (res: Result<usize, SocksError>)
    ensures
        hdr[0] != VER ==> res == Err::<usize, SocksError>(SocksError::NotSocks5),
        hdr[0] == VER ==> res == Ok::<usize, SocksError>(hdr[1] as usize),
{
    if hdr[0] != VER {
        Err(SocksError::NotSocks5)
    } else {
        Ok(hdr[1] as usize)
    }
}

/// The method reply to the offered methods, and whether the handshake goes
/// on: no-authentication when offered, otherwise "no acceptable method" and
/// the connection ends.
pub fn choose_method(methods: &[u8]) -> (res: ([u8; 2], bool))
    ensures
        methods@.contains(METHOD_NO_AUTH) ==> res.0@ == seq![VER, METHOD_NO_AUTH] && res.1,
        !methods@.contains(METHOD_NO_AUTH) ==> res.0@ == seq![VER, METHOD_NONE] && !res.1,
{
    let mut i: usize = 0;
    while i < methods.len()
        invariant
            0 <= i <= methods@.len(),
            forall|k: int| 0 <= k < i ==> methods@[k] != METHOD_NO_AUTH,
        decreases methods@.len() - i,
    {
        if methods[i] == METHOD_NO_AUTH {
            let r = [VER, METHOD_NO_AUTH];
            assert(r@ =~= seq![VER, METHOD_NO_AUTH]);
            return (r, true);
        }
        i += 1;
    }
    let r = [VER, METHOD_NONE];
    assert(r@ =~= seq![VER, METHOD_NONE]);
    (r, false)
}

/// What a request header `[VER, CMD, RSV, ATYP]` asks for.
#[derive(Clone, Copy, PartialEq, Eq, Debug, Structural)]
pub enum Request {
    /// CONNECT with this address type.
    Connect(u8),
    /// Any other command: answered with "command not supported".
    Unsupported,
}

/// Checks a request header.
pub fn request(req: [u8; 4]) -> (res: Result<Request, SocksError>)
    ensures
        req[0] != VER ==> res == Err::<Request, SocksError>(SocksError::BadVersion),
        req[0] == VER && req[1] != CMD_CONNECT ==> res == Ok::<Request, SocksError>(Request::Unsupported),
        req[0] == VER && req[1] == CMD_CONNECT ==> res == Ok::<Request, SocksError>(Request::Connect(req[3])),
{
    if req[0] != VER {
        Err(SocksError::BadVersion)
    } else if req[1] != CMD_CONNECT {
        Ok(Request::Unsupported)
    } else {
        Ok(Request::Connect(req[3]))
    }
}

/// A reply `[VER, code, RSV, IPv4, 0.0.0.0:0]`.
pub fn reply(code: u8) -> (res: [u8; 10])
    ensures
        res@ == seq![VER, code, 0u8, ATYP_IPV4, 0u8, 0u8, 0u8, 0u8, 0u8, 0u8],
{
    let r = [VER, code, 0x00, ATYP_IPV4, 0, 0, 0, 0, 0, 0];
    assert(r@ =~= seq![VER, code, 0u8, ATYP_IPV4, 0u8, 0u8, 0u8, 0u8, 0u8, 0u8]);
    r
}

/// What the client sends after the address type, before the port.
pub fn addr_shape(atyp: u8) -> (res: Option<AddrShape>)
    ensures
        atyp == ATYP_IPV4 ==> res == Some(AddrShape::Fixed(4)),
        atyp == ATYP_IPV6 ==> res == Some(AddrShape::Fixed(16)),
        atyp == ATYP_DOMAIN ==> res == Some(AddrShape::LengthPrefixed),
        atyp != ATYP_IPV4 && atyp != ATYP_IPV6 && atyp != ATYP_DOMAIN ==> res is None,
{
    if atyp == ATYP_IPV4 {
        Some(AddrShape::Fixed(4))
    } else if atyp == ATYP_IPV6 {
        Some(AddrShape::Fixed(16))
    } else if atyp == ATYP_DOMAIN {
        Some(AddrShape::LengthPrefixed)
    } else {
        None
    }
}

/// Whether `body` (what follows the address type byte) has the length its
/// address type calls for: the address, then a two-byte port.
pub open spec fn body_fits(atyp: u8, body: Seq<u8>) -> bool {
    if atyp == ATYP_IPV4 {
        body.len() == 6
    } else if atyp == ATYP_IPV6 {
        body.len() == 18
    } else if atyp == ATYP_DOMAIN {
        body.len() >= 1 && body.len() == 1 + body[0] + 2
    } else {
        true
    }
}

/// `String::from_utf8_lossy` as far as this library relies on it: valid
/// UTF-8 decodes to its characters.
pub open spec fn lossy_decode(bytes: Seq<u8>) -> Seq<char> {
    if vstd::utf8::valid_utf8(bytes) {
        vstd::utf8::decode_utf8(bytes)
    } else {
        crate::text::spec_utf8_lossy(bytes)
    }
}

/// The target that an address type and its body spell.
pub open spec fn spec_parse_target(atyp: u8, body: Seq<u8>) -> Option<TargetView> {
    let n = body.len();
    if atyp == ATYP_IPV4 {
        Some(TargetView::Ip(IpValue::V4(be_value(body.subrange(0, 4)) as u32), be_value(body.subrange(4, 6)) as u16))
    } else if atyp == ATYP_IPV6 {
        Some(TargetView::Ip(IpValue::V6(be_value(body.subrange(0, 16)) as u128), be_value(body.subrange(16, 18)) as u16))
    } else if atyp == ATYP_DOMAIN {
        Some(TargetView::Domain(lossy_decode(body.subrange(1, n - 2)), be_value(body.subrange(n - 2, n as int)) as u16))
    } else {
        None
    }
}

/// Parses a target from its address type and the bytes after it; a domain
/// name is decoded as lossy UTF-8.
pub fn parse_target(atyp: u8, body: &[u8]) -> (res: Result<Target, SocksError>)
    requires
        body_fits(atyp, body@),
    ensures
        match spec_parse_target(atyp, body@) {
            Some(t) => res matches Ok(r) && r.view() == t,
            None => res == Err::<Target, SocksError>(SocksError::UnsupportedAddressType),
        },
{
    let n = body.len();
    if atyp == ATYP_IPV4 {
        let a = read_be(body, 0, 4);
        let p = read_be(body, 4, 2);
        proof {
            crate::wire::lemma_be_value_bound(body@.subrange(0, 4));
            crate::wire::lemma_be_value_bound(body@.subrange(4, 6));
            lemma2_to64();
        }
        Ok(Target::Ip(IpValue::V4(a as u32), p as u16))
    } else if atyp == ATYP_IPV6 {
        let a = read_be(body, 0, 16);
        let p = read_be(body, 16, 2);
        proof {
            crate::wire::lemma_be_value_bound(body@.subrange(16, 18));
            lemma2_to64();
        }
        Ok(Target::Ip(IpValue::V6(a), p as u16))
    } else if atyp == ATYP_DOMAIN {
        let mut name: Vec<u8> = Vec::new();
        let mut i: usize = 1;
        while i < n - 2
            invariant
                1 <= i <= n - 2,
                n == body@.len(),
                n >= 3,
                name@ == body@.subrange(1, i as int),
            decreases n - 2 - i,
        {
            name.push(body[i]);
            i += 1;
            assert(name@ =~= body@.subrange(1, i as int));
        }
        let host = utf8_lossy(&name);
        let p = read_be(body, n - 2, 2);
        proof {
            crate::wire::lemma_be_value_bound(body@.subrange(n - 2, n as int));
            lemma2_to64();
        }
        Ok(Target::Domain(host, p as u16))
    } else {
        Err(SocksError::UnsupportedAddressType)
    }
}

/// The bytes of a target after the request header's first three bytes:
/// address type, address (a domain as its UTF-8 bytes after a length byte,
/// which keeps only the low 8 bits of the length), port.
pub open spec fn spec_target_bytes(t: TargetView) -> Seq<u8> {
    match t {
        TargetView::Ip(IpValue::V4(a), p) => seq![ATYP_IPV4] + be_bytes(a as nat, 4) + be_bytes(p as nat, 2),
        TargetView::Ip(IpValue::V6(a), p) => seq![ATYP_IPV6] + be_bytes(a as nat, 16) + be_bytes(p as nat, 2),
        TargetView::Domain(h, p) => {
            let b = vstd::utf8::encode_utf8(h);
            seq![ATYP_DOMAIN, (b.len() % 256) as u8] + b + be_bytes(p as nat, 2)
        },
    }
}

/// The CONNECT request for a target: `[VER, CONNECT, RSV]` and the target.
pub open spec fn spec_connect_request(t: TargetView) -> Seq<u8> {
    seq![VER, CMD_CONNECT, 0u8] + spec_target_bytes(t)
}

/// Builds the CONNECT request sent to the upstream proxy.
pub fn build_connect_request(target: &Target) -> (res: Vec<u8>)
    ensures
        res@ == spec_connect_request(target.view()),
{
    let mut req: Vec<u8> = Vec::new();
    req.push(VER);
    req.push(CMD_CONNECT);
    req.push(0x00);
    match target {
        Target::Domain(host, port) => {
            let b = host.as_str().as_bytes();
            req.push(ATYP_DOMAIN);
            req.push((b.len() % 256) as u8);
            let mut i: usize = 0;
            let ghost start = req@;
            while i < b.len()
                invariant
                    0 <= i <= b@.len(),
                    req@ == start + b@.subrange(0, i as int),
                decreases b@.len() - i,
            {
                req.push(b[i]);
                i += 1;
                assert(req@ =~= start + b@.subrange(0, i as int));
            }
            push_be(&mut req, *port as u128, 2);
            assert(b@.subrange(0, b@.len() as int) =~= b@);
        },
        Target::Ip(IpValue::V4(a), port) => {
            req.push(ATYP_IPV4);
            push_be(&mut req, *a as u128, 4);
            push_be(&mut req, *port as u128, 2);
        },
        Target::Ip(IpValue::V6(a), port) => {
            req.push(ATYP_IPV6);
            push_be(&mut req, *a, 16);
            push_be(&mut req, *port as u128, 2);
        },
    }
    assert(req@ =~= spec_connect_request(target.view()));
    req
}

/// The request a target is sent as parses back to the same target: for an
/// IP target always, for a domain whenever its UTF-8 form fits the length
/// byte.
pub proof fn lemma_connect_request_roundtrip(t: TargetView)
    requires
        t matches TargetView::Domain(h, _) ==> vstd::utf8::encode_utf8(h).len() <= 255,
    ensures
        ({
            let r = spec_connect_request(t);
            let body = r.subrange(4, r.len() as int);
            &&& body_fits(r[3], body)
            &&& spec_parse_target(r[3], body) == Some(t)
        }),
{
    lemma2_to64();
    lemma_pow2_adds(64, 64);
    let r = spec_connect_request(t);
    let body = r.subrange(4, r.len() as int);
    match t {
        TargetView::Ip(IpValue::V4(a), p) => {
            lemma_be_roundtrip(a as nat, 4);
            lemma_be_roundtrip(p as nat, 2);
            assert(body =~= be_bytes(a as nat, 4) + be_bytes(p as nat, 2));
            assert(body.subrange(0, 4) =~= be_bytes(a as nat, 4));
            assert(body.subrange(4, 6) =~= be_bytes(p as nat, 2));
        },
        TargetView::Ip(IpValue::V6(a), p) => {
            lemma_be_roundtrip(a as nat, 16);
            lemma_be_roundtrip(p as nat, 2);
            assert(body =~= be_bytes(a as nat, 16) + be_bytes(p as nat, 2));
            assert(body.subrange(0, 16) =~= be_bytes(a as nat, 16));
            assert(body.subrange(16, 18) =~= be_bytes(p as nat, 2));
        },
        TargetView::Domain(h, p) => {
            let b = vstd::utf8::encode_utf8(h);
            lemma_be_roundtrip(p as nat, 2);
            vstd::utf8::encode_utf8_valid_utf8(h);
            vstd::utf8::encode_utf8_decode_utf8(h);
            assert(body =~= seq![(b.len() % 256) as u8] + b + be_bytes(p as nat, 2));
            let n = body.len();
            assert(body.subrange(1, n - 2) =~= b);
            assert(body.subrange(n - 2, n as int) =~= be_bytes(p as nat, 2));
        },
    }
}

/// An IPv4 target is read in wire order: its address is the four address
/// bytes as a big-endian number (`b0·2^24 + b1·2^16 + b2·2^8 + b3`, so
/// `192,168,1,10` is `192.168.1.10`), and its port the next two bytes,
/// high byte first.
pub proof fn lemma_ipv4_target_wire_order(body: Seq<u8>)
    requires
        body.len() == 6,
    ensures
        spec_parse_target(ATYP_IPV4, body) == Some(
            TargetView::Ip(
                IpValue::V4(
                    (body[0] as int * 16777216 + body[1] as int * 65536 + body[2] as int * 256
                        + body[3] as int) as u32,
                ),
                (body[4] as int * 256 + body[5] as int) as u16,
            ),
        ),
{
    let s4 = body.subrange(0, 4);
    let s3 = body.subrange(0, 3);
    let s2 = body.subrange(0, 2);
    let s1 = body.subrange(0, 1);
    let s0 = body.subrange(0, 0);
    assert(s4.drop_last() =~= s3);
    assert(s3.drop_last() =~= s2);
    assert(s2.drop_last() =~= s1);
    assert(s1.drop_last() =~= s0);
    assert(be_value(s0) == 0);
    assert(be_value(s1) == body[0] as nat);
    assert(be_value(s2) == body[0] as nat * 256 + body[1] as nat);
    assert(be_value(s3) == (body[0] as nat * 256 + body[1] as nat) * 256 + body[2] as nat);
    assert(be_value(s4) == ((body[0] as nat * 256 + body[1] as nat) * 256 + body[2] as nat) * 256
        + body[3] as nat);
    let q2 = body.subrange(4, 6);
    let q1 = body.subrange(4, 5);
    assert(q2.drop_last() =~= q1);
    assert(q1.drop_last() =~= body.subrange(4, 4));
    assert(be_value(body.subrange(4, 4)) == 0);
    assert(be_value(q1) == body[4] as nat);
    assert(be_value(q2) == body[4] as nat * 256 + body[5] as nat);
}

/// An IPv6 target is read in wire order: byte `i` of the address, most
/// significant first, is address byte `i` of the body; the port is the last
/// two bytes, high byte first.
pub proof fn lemma_ipv6_target_wire_order(body: Seq<u8>)
    requires
        body.len() == 18,
    ensures
        spec_parse_target(ATYP_IPV6, body) matches Some(TargetView::Ip(IpValue::V6(a), p)) && p
            == body[16] as int * 256 + body[17] as int && (forall|i: int|
            0 <= i < 16 ==> ((a as nat / pow2((8 * (15 - i)) as nat)) % 256) as u8 == #[trigger] body[i]),
{
    lemma2_to64();
    lemma_pow2_adds(64, 64);
    let s = body.subrange(0, 16);
    lemma_be_value_bound(s);
    lemma_be_value_bytes(s);
    let a = be_value(s);
    assert forall|i: int| 0 <= i < 16 implies ((a / pow2((8 * (15 - i)) as nat)) % 256) as u8
        == #[trigger] body[i] by {
        lemma_be_bytes_index(a, 16, i);
        assert(s[i] == body[i]);
    }
    let q2 = body.subrange(16, 18);
    let q1 = body.subrange(16, 17);
    assert(q2.drop_last() =~= q1);
    assert(q1.drop_last() =~= body.subrange(16, 16));
    assert(be_value(body.subrange(16, 16)) == 0);
    assert(be_value(q1) == body[16] as nat);
    assert(be_value(q2) == body[16] as nat * 256 + body[17] as nat);
}

/// The CONNECT request carries an IP target's address bytes most significant
/// first, then the port high byte first: `192.168.1.10:443` goes out as
/// `5,1,0,1, 192,168,1,10, 1,187`.
pub proof fn lemma_connect_request_wire_order(t: TargetView)
    ensures
        t matches TargetView::Ip(IpValue::V4(a), p) ==> spec_connect_request(t) == seq![
            VER,
            CMD_CONNECT,
            0u8,
            ATYP_IPV4,
            ((a / 16777216) % 256) as u8,
            ((a / 65536) % 256) as u8,
            ((a / 256) % 256) as u8,
            (a % 256) as u8,
            ((p / 256) % 256) as u8,
            (p % 256) as u8,
        ],
        t matches TargetView::Ip(IpValue::V6(a), p) ==> {
            let r = spec_connect_request(t);
            &&& r.len() == 22
            &&& r.subrange(0, 4) == seq![VER, CMD_CONNECT, 0u8, ATYP_IPV6]
            &&& forall|i: int|
                0 <= i < 16 ==> #[trigger] r[4 + i] == ((a as nat / pow2((8 * (15 - i)) as nat)) % 256) as u8
            &&& r[20] == ((p / 256) % 256) as u8
            &&& r[21] == (p % 256) as u8
        },
{
    lemma2_to64();
    let r = spec_connect_request(t);
    match t {
        TargetView::Ip(IpValue::V4(a), p) => {
            let v = a as nat;
            let w = p as nat;
            lemma_be_bytes_index(v, 4, 0);
            lemma_be_bytes_index(v, 4, 1);
            lemma_be_bytes_index(v, 4, 2);
            lemma_be_bytes_index(v, 4, 3);
            lemma_be_bytes_index(w, 2, 0);
            lemma_be_bytes_index(w, 2, 1);
            assert(v / 1 == v);
            assert(w / 1 == w);
            let want = seq![
                VER,
                CMD_CONNECT,
                0u8,
                ATYP_IPV4,
                ((a / 16777216) % 256) as u8,
                ((a / 65536) % 256) as u8,
                ((a / 256) % 256) as u8,
                (a % 256) as u8,
                ((p / 256) % 256) as u8,
                (p % 256) as u8,
            ];
            assert(r =~= want);
        },
        TargetView::Ip(IpValue::V6(a), p) => {
            let v = a as nat;
            let w = p as nat;
            lemma_be_bytes_len(v, 16);
            lemma_be_bytes_index(w, 2, 0);
            lemma_be_bytes_index(w, 2, 1);
            assert(w / 1 == w);
            assert(r.subrange(0, 4) =~= seq![VER, CMD_CONNECT, 0u8, ATYP_IPV6]);
            assert forall|i: int| 0 <= i < 16 implies #[trigger] r[4 + i] == ((v / pow2(
                (8 * (15 - i)) as nat,
            )) % 256) as u8 by {
                lemma_be_bytes_index(v, 16, i);
            }
        },
        _ => {},
    }
}

/// Whether a target goes through the upstream proxy: a domain when it
/// matches a domain pattern, an IP target when its address matches an IP
/// rule.
pub fn via_upstream(matcher: &Matcher, target: &Target) -> (res: bool)
    requires
        matcher.wf(),
    ensures
        match target {
            Target::Domain(d, _) => res == exists|i: int|
                0 <= i < matcher.patterns().len() && crate::matcher::spec_pattern_matches(
                    #[trigger] matcher.patterns()[i],
                    crate::matcher::spec_to_lowercase(crate::text::trim_end_char(d@, '.')),
                ),
            Target::Ip(a, _) => res == exists|i: int|
                0 <= i < matcher.nets().len() && crate::matcher::spec_net_contains(
                    #[trigger] matcher.nets()[i],
                    *a,
                ),
        },
{
    match target {
        Target::Domain(d, _) => matcher.matches_domain(d.as_str()),
        Target::Ip(a, _) => matcher.matches_ip(*a),
    }
}

/// The greeting sent to the upstream proxy: version 5, one method,
/// no authentication.
pub fn upstream_greeting() -> (res: [u8; 3])
    ensures
        res@ == seq![VER, 1u8, METHOD_NO_AUTH],
{
    let r = [VER, 1, METHOD_NO_AUTH];
    assert(r@ =~= seq![VER, 1u8, METHOD_NO_AUTH]);
    r
}

/// Checks the upstream's method reply: it must accept no-authentication.
pub fn check_upstream_method(rsp: [u8; 2]) -> (res: Result<(), SocksError>)
    ensures
        rsp[1] == METHOD_NO_AUTH ==> res is Ok,
        rsp[1] != METHOD_NO_AUTH ==> res == Err::<(), SocksError>(SocksError::UpstreamRequiresAuth),
{
    if rsp[1] != METHOD_NO_AUTH {
        Err(SocksError::UpstreamRequiresAuth)
    } else {
        Ok(())
    }
}

/// Checks the upstream's reply header `[VER, REP, RSV, ATYP]`; on success
/// gives the address type of the bound address that follows.
pub fn check_upstream_reply(rep: [u8; 4]) -> (res: Result<u8, SocksError>)
    ensures
        rep[1] == REP_OK ==> res == Ok::<u8, SocksError>(rep[3]),
        rep[1] != REP_OK ==> res == Err::<u8, SocksError>(SocksError::UpstreamRefused(rep[1])),
{
    if rep[1] != REP_OK {
        Err(SocksError::UpstreamRefused(rep[1]))
    } else {
        Ok(rep[3])
    }
}

/// How many bytes of bound address and port follow the upstream's reply
/// header: `Fixed(n)` bytes, or one length byte then that many plus two;
/// nothing is skipped for an unknown address type.
pub fn bound_addr_skip(atyp: u8) -> (res: Option<AddrShape>)
    ensures
        atyp == ATYP_IPV4 ==> res == Some(AddrShape::Fixed(6)),
        atyp == ATYP_IPV6 ==> res == Some(AddrShape::Fixed(18)),
        atyp == ATYP_DOMAIN ==> res == Some(AddrShape::LengthPrefixed),
        atyp != ATYP_IPV4 && atyp != ATYP_IPV6 && atyp != ATYP_DOMAIN ==> res is None,
{
    if atyp == ATYP_IPV4 {
        Some(AddrShape::Fixed(4 + 2))
    } else if atyp == ATYP_IPV6 {
        Some(AddrShape::Fixed(16 + 2))
    } else if atyp == ATYP_DOMAIN {
        Some(AddrShape::LengthPrefixed)
    } else {
        None
    }
}

} // verus!
