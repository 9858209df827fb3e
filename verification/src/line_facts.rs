//! Facts about [`lines`](crate::text::lines): how it splits concatenations,
//! and that every line (and every trimmed line) is a piece of the text.

use vstd::prelude::*;
use crate::text::{contains_seq, is_ws, lines, lines_from, occurs_at, strip_cr, trim, trim_end, trim_start};

verus! {

/// `x` is a contiguous piece of `s`.
pub open spec fn is_piece(x: Seq<char>, s: Seq<char>) -> bool {
    exists|j: int, m: int| 0 <= j <= m <= s.len() && x == #[trigger] s.subrange(j, m)
}

/// Splitting is unchanged by text before position `p.len()`.
pub proof fn lemma_lines_shift(p: Seq<char>, q: Seq<char>, k: int, cur: Seq<char>)
    requires
        0 <= k <= q.len(),
    ensures
        lines_from(p + q, p.len() + k, cur) == lines_from(q, k, cur),
    decreases q.len() - k,
{
    if k < q.len() {
        assert((p + q)[p.len() + k] == q[k]);
        if q[k] == '\n' {
            lemma_lines_shift(p, q, k + 1, Seq::empty());
        } else {
            lemma_lines_shift(p, q, k + 1, cur.push(q[k]));
        }
    }
}

proof fn lemma_lines_split_from(a: Seq<char>, b: Seq<char>, i: int, cur: Seq<char>)
    requires
        b.len() > 0,
        b[0] == '\n',
        0 <= i <= a.len(),
    ensures
        lines_from(a + b, i, cur) == lines_from(a.push('\n'), i, cur) + lines_from(b, 1, Seq::empty()),
    decreases a.len() - i,
{
    let tail = lines_from(b, 1, Seq::empty());
    if i < a.len() {
        assert((a + b)[i] == a[i]);
        assert(a.push('\n')[i] == a[i]);
        if a[i] == '\n' {
            lemma_lines_split_from(a, b, i + 1, Seq::empty());
            let r = lines_from(a.push('\n'), i + 1, Seq::empty());
            assert(seq![strip_cr(cur)] + (r + tail) =~= (seq![strip_cr(cur)] + r) + tail);
        } else {
            lemma_lines_split_from(a, b, i + 1, cur.push(a[i]));
        }
    } else {
        assert((a + b)[i] == '\n');
        assert(a.push('\n')[i] == '\n');
        lemma_lines_shift(a, b, 1, Seq::empty());
        assert(lines_from(a.push('\n'), i + 1, Seq::empty()) =~= Seq::<Seq<char>>::empty());
        assert(seq![strip_cr(cur)] + tail =~= (seq![strip_cr(cur)] + Seq::<Seq<char>>::empty())
            + tail);
    }
}

/// The lines of `a + b`, where `b` begins with a newline: those of `a`
/// ended by that newline, then those of the rest of `b`.
pub proof fn lemma_lines_split(a: Seq<char>, b: Seq<char>)
    requires
        b.len() > 0,
        b[0] == '\n',
    ensures
        lines(a + b) == lines(a.push('\n')) + lines(b.drop_first()),
{
    lemma_lines_split_from(a, b, 0, Seq::empty());
    lemma_lines_shift(seq!['\n'], b.drop_first(), 0, Seq::empty());
    assert(seq!['\n'] + b.drop_first() =~= b);
}

proof fn lemma_lines_one_from(x: Seq<char>, i: int, cur: Seq<char>)
    requires
        0 <= i <= x.len(),
        forall|k: int| i <= k < x.len() ==> x[k] != '\n',
    ensures
        lines_from(x.push('\n'), i, cur) == seq![strip_cr(cur + x.subrange(i, x.len() as int))],
    decreases x.len() - i,
{
    if i < x.len() {
        assert(x.push('\n')[i] == x[i]);
        lemma_lines_one_from(x, i + 1, cur.push(x[i]));
        assert(cur.push(x[i]) + x.subrange(i + 1, x.len() as int) =~= cur + x.subrange(
            i,
            x.len() as int,
        ));
    } else {
        assert(x.push('\n')[i] == '\n');
        assert(cur + x.subrange(i, x.len() as int) =~= cur);
        assert(lines_from(x.push('\n'), i + 1, Seq::empty()) =~= Seq::<Seq<char>>::empty());
        assert(seq![strip_cr(cur)] + Seq::<Seq<char>>::empty() =~= seq![strip_cr(cur)]);
    }
}

/// A line without newline, ended by one, is one line.
pub proof fn lemma_lines_one(x: Seq<char>)
    requires
        forall|k: int| 0 <= k < x.len() ==> x[k] != '\n',
    ensures
        lines(x.push('\n')) == seq![strip_cr(x)],
{
    lemma_lines_one_from(x, 0, Seq::empty());
    assert(Seq::<char>::empty() + x.subrange(0, x.len() as int) =~= x);
}

/// A first line without newline, then a newline, then the rest.
pub proof fn lemma_lines_cons(x: Seq<char>, y: Seq<char>)
    requires
        forall|k: int| 0 <= k < x.len() ==> x[k] != '\n',
    ensures
        lines(x + (seq!['\n'] + y)) == seq![strip_cr(x)] + lines(y),
{
    lemma_lines_split(x, seq!['\n'] + y);
    lemma_lines_one(x);
    assert((seq!['\n'] + y).drop_first() =~= y);
}

proof fn lemma_lines_newline_end_from(s: Seq<char>, i: int, cur: Seq<char>)
    requires
        s.len() > 0,
        s.last() != '\n',
        s.last() != '\r',
        0 <= i <= s.len(),
        i == s.len() ==> (cur.len() > 0 && cur.last() == s.last()),
    ensures
        lines_from(s.push('\n'), i, cur) == lines_from(s, i, cur),
    decreases s.len() - i,
{
    if i < s.len() {
        assert(s.push('\n')[i] == s[i]);
        if s[i] == '\n' {
            lemma_lines_newline_end_from(s, i + 1, Seq::empty());
        } else {
            lemma_lines_newline_end_from(s, i + 1, cur.push(s[i]));
        }
    } else {
        assert(s.push('\n')[i] == '\n');
        assert(lines_from(s.push('\n'), i + 1, Seq::empty()) =~= Seq::<Seq<char>>::empty());
        assert(seq![strip_cr(cur)] + Seq::<Seq<char>>::empty() =~= seq![cur]);
    }
}

/// Ending a text whose last line is unterminated (and does not end in a
/// carriage return) with a newline does not change its lines.
pub proof fn lemma_lines_newline_end(s: Seq<char>)
    requires
        s.len() > 0,
        s.last() != '\n',
        s.last() != '\r',
    ensures
        lines(s.push('\n')) == lines(s),
{
    lemma_lines_newline_end_from(s, 0, Seq::empty());
}

/// Ending a text that already ends in a newline with another one adds one
/// empty line.
pub proof fn lemma_lines_blank_end(s: Seq<char>)
    requires
        s.len() > 0,
        s.last() == '\n',
    ensures
        lines(s.push('\n')) == lines(s).push(Seq::empty()),
{
    let c = s.drop_last();
    assert(c + seq!['\n'] =~= s);
    assert(c + seq!['\n', '\n'] =~= s.push('\n'));
    lemma_lines_split(c, seq!['\n']);
    lemma_lines_split(c, seq!['\n', '\n']);
    assert(c.push('\n') =~= s);
    assert(seq!['\n'].drop_first() =~= Seq::<char>::empty());
    assert(lines(Seq::<char>::empty()) =~= Seq::<Seq<char>>::empty());
    assert(seq!['\n', '\n'].drop_first() =~= seq!['\n']);
    lemma_lines_one(Seq::<char>::empty());
    assert(Seq::<char>::empty().push('\n') =~= seq!['\n']);
    assert(lines(s) =~= lines(s) + Seq::<Seq<char>>::empty());
}

proof fn lemma_piece_of(s: Seq<char>, j: int, m: int)
    requires
        0 <= j <= m <= s.len(),
    ensures
        is_piece(s.subrange(j, m), s),
{
}

proof fn lemma_lines_pieces_from(s: Seq<char>, i: int, start: int)
    requires
        0 <= start <= i <= s.len(),
    ensures
        forall|k: int|
            0 <= k < lines_from(s, i, s.subrange(start, i)).len() ==> is_piece(
                #[trigger] lines_from(s, i, s.subrange(start, i))[k],
                s,
            ),
    decreases s.len() - i,
{
    let cur = s.subrange(start, i);
    lemma_piece_of(s, start, i);
    if i >= s.len() {
        let all = lines_from(s, i, cur);
        assert forall|k: int| 0 <= k < all.len() implies is_piece(#[trigger] all[k], s) by {
            assert(all[k] == cur);
        }
    } else if s[i] == '\n' {
        lemma_lines_pieces_from(s, i + 1, i + 1);
        assert(s.subrange(i + 1, i + 1) =~= Seq::<char>::empty());
        if cur.len() > 0 && cur.last() == '\r' {
            assert(cur.drop_last() =~= s.subrange(start, i - 1));
            lemma_piece_of(s, start, i - 1);
        }
        let rest = lines_from(s, i + 1, Seq::empty());
        let all = seq![strip_cr(cur)] + rest;
        assert forall|k: int| 0 <= k < all.len() implies is_piece(#[trigger] all[k], s) by {
            if k > 0 {
                assert(all[k] == rest[k - 1]);
            }
        }
        assert(lines_from(s, i, cur) == all);
    } else {
        assert(cur.push(s[i]) =~= s.subrange(start, i + 1));
        lemma_lines_pieces_from(s, i + 1, start);
        assert(lines_from(s, i, cur) == lines_from(s, i + 1, s.subrange(start, i + 1)));
    }
}

proof fn lemma_trim_start_piece(x: Seq<char>)
    ensures
        exists|a: int| 0 <= a <= x.len() && trim_start(x) == #[trigger] x.subrange(a, x.len() as int),
    decreases x.len(),
{
    if x.len() > 0 && is_ws(x[0]) {
        lemma_trim_start_piece(x.drop_first());
        let a = choose|a: int|
            0 <= a <= x.drop_first().len() && trim_start(x.drop_first())
                == #[trigger] x.drop_first().subrange(a, x.drop_first().len() as int);
        assert(x.drop_first().subrange(a, x.drop_first().len() as int) =~= x.subrange(
            a + 1,
            x.len() as int,
        ));
    } else {
        assert(x.subrange(0, x.len() as int) =~= x);
    }
}

proof fn lemma_trim_end_piece(x: Seq<char>)
    ensures
        exists|b: int| 0 <= b <= x.len() && trim_end(x) == #[trigger] x.subrange(0, b),
    decreases x.len(),
{
    if x.len() > 0 && is_ws(x.last()) {
        lemma_trim_end_piece(x.drop_last());
        let b = choose|b: int|
            0 <= b <= x.drop_last().len() && trim_end(x.drop_last()) == #[trigger] x.drop_last().subrange(0, b);
        assert(x.drop_last().subrange(0, b) =~= x.subrange(0, b));
    } else {
        assert(x.subrange(0, x.len() as int) =~= x);
    }
}

/// A trimmed line is a piece of the line.
pub proof fn lemma_trim_piece(x: Seq<char>)
    ensures
        is_piece(trim(x), x),
{
    lemma_trim_start_piece(x);
    let a = choose|a: int| 0 <= a <= x.len() && trim_start(x) == #[trigger] x.subrange(a, x.len() as int);
    let t = x.subrange(a, x.len() as int);
    lemma_trim_end_piece(t);
    let b = choose|b: int| 0 <= b <= t.len() && trim_end(t) == #[trigger] t.subrange(0, b);
    assert(t.subrange(0, b) =~= x.subrange(a, a + b));
    lemma_piece_of(x, a, a + b);
}

/// A piece of a piece of `s` is a piece of `s`.
pub proof fn lemma_piece_trans(y: Seq<char>, x: Seq<char>, s: Seq<char>)
    requires
        is_piece(y, x),
        is_piece(x, s),
    ensures
        is_piece(y, s),
{
    let (j1, m1) = choose|j: int, m: int| 0 <= j <= m <= x.len() && y == #[trigger] x.subrange(j, m);
    let (j2, m2) = choose|j: int, m: int| 0 <= j <= m <= s.len() && x == #[trigger] s.subrange(j, m);
    assert(s.subrange(j2, m2).subrange(j1, m1) =~= s.subrange(j2 + j1, j2 + m1));
    lemma_piece_of(s, j2 + j1, j2 + m1);
}

/// A piece equal to `p` is an occurrence of `p`.
pub proof fn lemma_piece_occurs(p: Seq<char>, s: Seq<char>)
    requires
        is_piece(p, s),
    ensures
        contains_seq(s, p),
{
    let (j, m) = choose|j: int, m: int| 0 <= j <= m <= s.len() && p == #[trigger] s.subrange(j, m);
    assert(occurs_at(s, p, j));
}

/// Every line of `s` is a piece of `s`.
pub proof fn lemma_lines_pieces(s: Seq<char>)
    ensures
        forall|k: int| 0 <= k < lines(s).len() ==> is_piece(#[trigger] lines(s)[k], s),
{
    lemma_lines_pieces_from(s, 0, 0);
    assert(s.subrange(0, 0) =~= Seq::<char>::empty());
}

} // verus!
