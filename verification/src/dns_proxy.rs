//! The standalone proxy's DNS forwarding decision: the first question name
//! of a query, read straight from the wire, and the resolver it goes to.

use vstd::prelude::*;
use crate::matcher::Matcher;
use crate::text::{chars_of, extend_chars, spec_utf8_lossy, string_from_chars, utf8_lossy};

verus! {

/// The labels of a name starting at `pos`, up to the terminating zero byte
/// or a compression pointer (which ends the name here); `None` when the
/// buffer ends first.
pub open spec fn qname_labels(buf: Seq<u8>, pos: int) -> Option<Seq<Seq<u8>>>
    decreases buf.len() - pos,
{
    if pos < 0 || pos >= buf.len() {
        None
    } else {
        let l = buf[pos] as int;
        if l == 0 || l >= 0xC0 {
            Some(Seq::empty())
        } else if pos + 1 + l > buf.len() {
            None
        } else {
            match qname_labels(buf, pos + 1 + l) {
                Some(rest) => Some(seq![buf.subrange(pos + 1, pos + 1 + l)] + rest),
                None => None,
            }
        }
    }
}

/// The pieces joined with `sep` between them.
pub open spec fn join(parts: Seq<Seq<char>>, sep: Seq<char>) -> Seq<char>
    decreases parts.len(),
{
    if parts.len() == 0 {
        Seq::empty()
    } else if parts.len() == 1 {
        parts[0]
    } else {
        join(parts.drop_last(), sep) + sep + parts.last()
    }
}

/// The first question name of a DNS message: the labels after the 12-byte
/// header, each decoded as lossy UTF-8, joined with dots; `None` when the
/// message is shorter than a header, the name runs off the end, or it has
/// no label.
pub open spec fn spec_parse_qname(buf: Seq<u8>) -> Option<Seq<char>> {
    if buf.len() < 12 {
        None
    } else {
        match qname_labels(buf, 12) {
            Some(ls) => if ls.len() == 0 {
                None
            } else {
                Some(join(ls.map_values(|l: Seq<u8>| spec_utf8_lossy(l)), "."@))
            },
            None => None,
        }
    }
}

/// `prefix` followed by the labels read from `rest`, if those exist.
pub open spec fn prepend(prefix: Seq<Seq<u8>>, rest: Option<Seq<Seq<u8>>>) -> Option<Seq<Seq<u8>>> {
    match rest {
        Some(r) => Some(prefix + r),
        None => None,
    }
}

/// Extracts the first question name of a DNS message.
pub fn parse_qname(buf: &[u8]) -> (res: Option<String>)
    ensures
        match spec_parse_qname(buf@) {
            Some(n) => res matches Some(r) && r@ == n,
            None => res is None,
        },
{
    if buf.len() < 12 {
        return None;
    }
    let mut pos: usize = 12;
    let mut parts: Vec<String> = Vec::new();
    let ghost done: Seq<Seq<u8>> = Seq::empty();
    loop
        invariant
            12 <= pos,
            buf@.len() >= 12,
            qname_labels(buf@, 12) == prepend(done, qname_labels(buf@, pos as int)),
            parts@.len() == done.len(),
            forall|k: int| 0 <= k < parts@.len() ==> #[trigger] parts@[k]@ == spec_utf8_lossy(done[k]),
        ensures
            qname_labels(buf@, pos as int) == Some(Seq::<Seq<u8>>::empty()),
        decreases buf@.len() - pos,
    {
        if pos >= buf.len() {
            return None;
        }
        let label_len = buf[pos] as usize;
        if label_len == 0 {
            break;
        }
        if label_len >= 0xC0 {
            break;
        }
        if label_len > buf.len() - pos - 1 {
            return None;
        }
        let start = pos + 1;
        let end = start + label_len;
        let mut label: Vec<u8> = Vec::new();
        let mut i = start;
        while i < end
            invariant
                start <= i <= end,
                end == start + label_len,
                end <= buf@.len(),
                label@ == buf@.subrange(start as int, i as int),
            decreases end - i,
        {
            label.push(buf[i]);
            i += 1;
            assert(label@ =~= buf@.subrange(start as int, i as int));
        }
        let piece = utf8_lossy(&label);
        proof {
            let l = buf@.subrange(start as int, start + label_len);
            assert(prepend(done, qname_labels(buf@, pos as int)) =~= prepend(
                done.push(l),
                qname_labels(buf@, start + label_len),
            )) by {
                match qname_labels(buf@, start + label_len) {
                    Some(rest) => {
                        assert(done + (seq![l] + rest) =~= done.push(l) + rest);
                    },
                    None => {},
                }
            }
            done = done.push(l);
        }
        parts.push(piece);
        pos = start + label_len;
    }
    assert(qname_labels(buf@, 12) == Some(done)) by {
        assert(done + Seq::<Seq<u8>>::empty() =~= done);
    }
    if parts.len() == 0 {
        return None;
    }
    let ghost views = done.map_values(|l: Seq<u8>| spec_utf8_lossy(l));
    let mut out: Vec<char> = Vec::new();
    let mut k: usize = 0;
    while k < parts.len()
        invariant
            0 <= k <= parts@.len(),
            parts@.len() == done.len(),
            parts@.len() > 0,
            views == done.map_values(|l: Seq<u8>| spec_utf8_lossy(l)),
            forall|j: int| 0 <= j < parts@.len() ==> #[trigger] parts@[j]@ == spec_utf8_lossy(done[j]),
            out@ == join(views.subrange(0, k as int), "."@),
        decreases parts@.len() - k,
    {
        let ghost before = out@;
        if k > 0 {
            out.push('.');
            proof {
                reveal_strlit(".");
            }
        }
        extend_chars(&mut out, &chars_of(parts[k].as_str()));
        proof {
            let sub = views.subrange(0, k + 1);
            assert(sub.drop_last() =~= views.subrange(0, k as int));
            assert(sub.last() == parts@[k as int]@);
            if k == 0 {
                assert(out@ =~= sub[0]);
            } else {
                assert(out@ =~= join(sub.drop_last(), "."@) + "."@ + sub.last());
            }
        }
        k += 1;
    }
    assert(views.subrange(0, parts@.len() as int) =~= views);
    Some(string_from_chars(&out))
}

/// The resolver a query goes to: `upstream` when its name parsed and
/// matches a domain pattern, `fallback` otherwise.
pub fn resolver_for<'a>(matcher: &Matcher, qname: Option<&str>, upstream: &'a str, fallback: &'a str) -> (res: &'a str)
    ensures
        res == (match qname {
            Some(d) => if exists|i: int|
                0 <= i < matcher.patterns().len() && crate::matcher::spec_pattern_matches(
                    #[trigger] matcher.patterns()[i],
                    crate::matcher::spec_to_lowercase(crate::text::trim_end_char(d@, '.')),
                ) {
                upstream
            } else {
                fallback
            },
            None => fallback,
        }),
{
    match qname {
        Some(domain) => if matcher.matches_domain(domain) {
            upstream
        } else {
            fallback
        },
        None => fallback,
    }
}

/// The wire form of a name: each label after its length byte, then a zero
/// byte.
pub open spec fn encode_name(labels: Seq<Seq<u8>>) -> Seq<u8>
    decreases labels.len(),
{
    if labels.len() == 0 {
        seq![0u8]
    } else {
        seq![labels[0].len() as u8] + labels[0] + encode_name(labels.drop_first())
    }
}

proof fn lemma_labels_shift(p: Seq<u8>, q: Seq<u8>, k: int)
    requires
        0 <= k <= q.len(),
    ensures
        qname_labels(p + q, p.len() + k) == qname_labels(q, k),
    decreases q.len() - k,
{
    if k < q.len() {
        assert((p + q)[p.len() + k] == q[k]);
        let l = q[k] as int;
        if l != 0 && l < 0xC0 && k + 1 + l <= q.len() {
            lemma_labels_shift(p, q, k + 1 + l);
            assert((p + q).subrange(p.len() + k + 1, p.len() + k + 1 + l) =~= q.subrange(
                k + 1,
                k + 1 + l,
            ));
        }
    }
}

proof fn lemma_labels_of_encoding(labels: Seq<Seq<u8>>, tail: Seq<u8>)
    requires
        forall|i: int| 0 <= i < labels.len() ==> 0 < #[trigger] labels[i].len() < 0xC0,
    ensures
        qname_labels(encode_name(labels) + tail, 0) == Some(labels),
    decreases labels.len(),
{
    if labels.len() == 0 {
        assert((encode_name(labels) + tail)[0] == 0u8);
    } else {
        let l = labels[0];
        let rest = labels.drop_first();
        assert forall|i: int| 0 <= i < rest.len() implies 0 < #[trigger] rest[i].len() < 0xC0 by {
            assert(rest[i] == labels[i + 1]);
        }
        lemma_labels_of_encoding(rest, tail);
        let head = seq![l.len() as u8] + l;
        let w = encode_name(labels) + tail;
        assert(w =~= head + (encode_name(rest) + tail));
        lemma_labels_shift(head, encode_name(rest) + tail, 0);
        assert(w[0] == l.len() as u8);
        assert(w.subrange(1, 1 + l.len() as int) =~= l);
        assert(seq![l] + rest =~= labels);
    }
}

/// A query whose name is written in plain labels (each 1 to 191 bytes, so
/// no length byte reads as a compression pointer) has that name read back:
/// its labels, decoded and joined with dots.
pub proof fn lemma_parse_qname_reads_back(header: Seq<u8>, labels: Seq<Seq<u8>>, tail: Seq<u8>)
    requires
        header.len() == 12,
        labels.len() > 0,
        forall|i: int| 0 <= i < labels.len() ==> 0 < #[trigger] labels[i].len() < 0xC0,
    ensures
        spec_parse_qname(header + encode_name(labels) + tail) == Some(
            join(labels.map_values(|l: Seq<u8>| spec_utf8_lossy(l)), "."@),
        ),
{
    lemma_labels_of_encoding(labels, tail);
    let body = encode_name(labels) + tail;
    assert(header + encode_name(labels) + tail =~= header + body);
    lemma_labels_shift(header, body, 0);
}

} // verus!
