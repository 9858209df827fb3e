//! Big-endian integers as bytes.

use vstd::prelude::*;
use vstd::arithmetic::power2::{pow2, lemma_pow2_adds, lemma2_to64, lemma_pow2_pos};

verus! {

/// The low `n` bytes of `v`, most significant first.
pub open spec fn be_bytes(v: nat, n: nat) -> Seq<u8>
    decreases n,
{
    if n == 0 {
        Seq::empty()
    } else {
        be_bytes(v / 256, (n - 1) as nat).push((v % 256) as u8)
    }
}

/// The number that big-endian bytes spell.
pub open spec fn be_value(s: Seq<u8>) -> nat
    decreases s.len(),
{
    if s.len() == 0 {
        0
    } else {
        be_value(s.drop_last()) * 256 + s.last() as nat
    }
}

proof fn lemma_pow2_step(n: nat)
    ensures
        pow2(8 * (n + 1)) == pow2(8 * n) * 256,
{
    lemma_pow2_adds(8 * n, 8);
    lemma2_to64();
    assert(8 * (n + 1) == 8 * n + 8);
}

/// Bytes spell a number below `2^(8·len)`.
pub proof fn lemma_be_value_bound(s: Seq<u8>)
    ensures
        be_value(s) < pow2(8 * s.len()),
    decreases s.len(),
{
    if s.len() == 0 {
        lemma2_to64();
    } else {
        lemma_be_value_bound(s.drop_last());
        lemma_pow2_step((s.len() - 1) as nat);
        let p = pow2(8 * (s.len() - 1) as nat);
        let v = be_value(s.drop_last());
        assert(v * 256 + (s.last() as nat) < p * 256) by (nonlinear_arith)
            requires
                v < p,
                s.last() < 256;
    }
}

/// Writing `n` bytes of a number below `2^(8n)` and reading them back gives
/// the number.
pub proof fn lemma_be_roundtrip(v: nat, n: nat)
    requires
        v < pow2(8 * n),
    ensures
        be_bytes(v, n).len() == n,
        be_value(be_bytes(v, n)) == v,
    decreases n,
{
    if n == 0 {
        lemma2_to64();
    } else {
        lemma_pow2_step((n - 1) as nat);
        let p = pow2(8 * (n - 1) as nat);
        assert(v / 256 < p) by (nonlinear_arith)
            requires
                v < p * 256;
        lemma_be_roundtrip(v / 256, (n - 1) as nat);
        assert(be_bytes(v, n).drop_last() =~= be_bytes(v / 256, (n - 1) as nat));
        assert((v / 256) * 256 + v % 256 == v) by (nonlinear_arith);
    }
}

/// Appends the low `n` bytes of `v`, most significant first.
pub fn push_be(out: &mut Vec<u8>, v: u128, n: usize)
    requires
        n <= 16,
    ensures
        final(out)@ == old(out)@ + be_bytes(v as nat, n as nat),
    decreases n,
{
    if n > 0 {
        push_be(out, v / 256, n - 1);
        out.push((v % 256) as u8);
    } else {
        assert(old(out)@ + be_bytes(v as nat, 0) =~= old(out)@);
    }
}

/// Reads `n` big-endian bytes from `s[from..]`.
pub fn read_be(s: &[u8], from: usize, n: usize) -> (res: u128)
    requires
        n <= 16,
        from + n <= s@.len(),
    ensures
        res as nat == be_value(s@.subrange(from as int, from + n)),
{
    let mut acc: u128 = 0;
    let mut i: usize = 0;
    while i < n
        invariant
            0 <= i <= n,
            n <= 16,
            from + n <= s@.len(),
            s@.len() == s.len(),
            acc as nat == be_value(s@.subrange(from as int, from + i)),
        decreases n - i,
    {
        proof {
            let sub = s@.subrange(from as int, from + i);
            lemma_be_value_bound(sub);
            lemma2_to64();
            lemma_pow2_adds(64, 64);
            if 8 * i < 120 {
                vstd::arithmetic::power2::lemma_pow2_strictly_increases(8 * i as nat, 120);
            }
            lemma_pow2_adds(120, 8);
            assert(acc * 256 + 255 < pow2(128)) by (nonlinear_arith)
                requires
                    acc < pow2(8 * i as nat),
                    pow2(8 * i as nat) <= pow2(120),
                    pow2(128) == pow2(120) * 256;
            assert(s@.subrange(from as int, from + i + 1).drop_last() =~= sub);
        }
        acc = acc * 256 + s[from + i] as u128;
        i += 1;
    }
    acc
}

/// `n` bytes are written.
pub proof fn lemma_be_bytes_len(v: nat, n: nat)
    ensures
        be_bytes(v, n).len() == n,
    decreases n,
{
    if n > 0 {
        lemma_be_bytes_len(v / 256, (n - 1) as nat);
    }
}

/// Byte `i` of `n` big-endian bytes of `v` is digit `n - 1 - i` of `v` in
/// base 256: the most significant byte comes first.
pub proof fn lemma_be_bytes_index(v: nat, n: nat, i: int)
    requires
        0 <= i < n,
    ensures
        be_bytes(v, n).len() == n,
        be_bytes(v, n)[i] == ((v / pow2((8 * (n - 1 - i)) as nat)) % 256) as u8,
    decreases n,
{
    lemma_be_bytes_len(v, n);
    lemma_be_bytes_len(v / 256, (n - 1) as nat);
    if i == n - 1 {
        lemma2_to64();
        assert(pow2((8 * (n - 1 - i)) as nat) == 1);
        assert(v / 1 == v);
    } else {
        lemma_be_bytes_index(v / 256, (n - 1) as nat, i);
        let k = (n - 2 - i) as nat;
        lemma_pow2_step(k);
        assert(8 * (k + 1) == 8 * (n - 1 - i));
        lemma_pow2_pos(8 * k);
        vstd::arithmetic::div_mod::lemma_div_denominator(v as int, 256, pow2(8 * k) as int);
        assert(256 * pow2(8 * k) == pow2(8 * k) * 256);
    }
}

/// The bytes that spell a number are the big-endian bytes of that number.
pub proof fn lemma_be_value_bytes(s: Seq<u8>)
    ensures
        be_bytes(be_value(s), s.len()) == s,
    decreases s.len(),
{
    if s.len() > 0 {
        let init = s.drop_last();
        lemma_be_value_bytes(init);
        let w = be_value(init);
        let l = s.last() as nat;
        assert((w * 256 + l) / 256 == w && (w * 256 + l) % 256 == l) by (nonlinear_arith)
            requires
                l < 256;
        assert(be_bytes(be_value(s), s.len()) =~= init.push(s.last()));
        assert(init.push(s.last()) =~= s);
    } else {
        assert(s =~= Seq::<u8>::empty());
    }
}

} // verus!
