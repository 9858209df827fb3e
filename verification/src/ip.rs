//! IP addresses and networks as plain integers, and a small table keyed by
//! IP address.

use vstd::prelude::*;

verus! {

/// An IP address: IPv4 as a `u32`, IPv6 as a `u128` (network byte order
/// read as a big-endian integer).
#[derive(Clone, Copy, PartialEq, Eq, Debug, Structural)]
pub enum IpValue {
    V4(u32),
    V6(u128),
}

/// A table from IP addresses to values, each address at most once.
pub struct IpTable<V> {
    entries: Vec<(IpValue, V)>,
}

/// Whether no address occurs twice in `s`.
pub open spec fn unique_keys<V>(s: Seq<(IpValue, V)>) -> bool {
    forall|i: int, j: int|
        0 <= i < s.len() && 0 <= j < s.len() && i != j ==> #[trigger] s[i].0 != #[trigger] s[j].0
}

/// Whether `k` occurs in `s`.
pub open spec fn has_key<V>(s: Seq<(IpValue, V)>, k: IpValue) -> bool {
    exists|i: int| 0 <= i < s.len() && #[trigger] s[i].0 == k
}

/// The position of `k` in `s` (meaningful when `k` occurs).
pub open spec fn key_index<V>(s: Seq<(IpValue, V)>, k: IpValue) -> int {
    choose|i: int| 0 <= i < s.len() && #[trigger] s[i].0 == k
}

/// The map that `s` represents.
pub open spec fn entries_map<V>(s: Seq<(IpValue, V)>) -> Map<IpValue, V> {
    Map::new(|k: IpValue| has_key(s, k), |k: IpValue| s[key_index(s, k)].1)
}

proof fn lemma_key_index<V>(s: Seq<(IpValue, V)>, i: int)
    requires
        unique_keys(s),
        0 <= i < s.len(),
    ensures
        has_key(s, s[i].0),
        key_index(s, s[i].0) == i,
{
    assert(s[i].0 == s[i].0);
    let j = key_index(s, s[i].0);
    assert(s[j].0 == s[i].0);
}

proof fn lemma_remove_entry<V>(s: Seq<(IpValue, V)>, i: int)
    requires
        unique_keys(s),
        0 <= i < s.len(),
    ensures
        unique_keys(s.remove(i)),
        entries_map(s.remove(i)) == entries_map(s).remove(s[i].0),
{
    let r = s.remove(i);
    let k = s[i].0;
    assert forall|a: int, b: int|
        0 <= a < r.len() && 0 <= b < r.len() && a != b implies #[trigger] r[a].0 != #[trigger] r[b].0 by {
        let a2 = if a < i { a } else { a + 1 };
        let b2 = if b < i { b } else { b + 1 };
        assert(r[a] == s[a2]);
        assert(r[b] == s[b2]);
    }
    assert forall|x: IpValue| has_key(r, x) <==> (has_key(s, x) && x != k) by {
        if has_key(r, x) {
            let a = choose|a: int| 0 <= a < r.len() && #[trigger] r[a].0 == x;
            let a2 = if a < i { a } else { a + 1 };
            assert(r[a] == s[a2]);
            assert(s[a2].0 == x);
        }
        if has_key(s, x) && x != k {
            let a = choose|a: int| 0 <= a < s.len() && #[trigger] s[a].0 == x;
            assert(a != i);
            let a2 = if a < i { a } else { a - 1 };
            assert(r[a2] == s[a]);
            assert(r[a2].0 == x);
        }
    }
    assert forall|x: IpValue| has_key(r, x) implies r[key_index(r, x)].1 == s[key_index(s, x)].1 by {
        let a = key_index(r, x);
        assert(r[a].0 == x);
        let a2 = if a < i { a } else { a + 1 };
        assert(r[a] == s[a2]);
        lemma_key_index(s, a2);
    }
    assert(entries_map(r) =~= entries_map(s).remove(k));
}

proof fn lemma_push_entry<V>(s: Seq<(IpValue, V)>, k: IpValue, v: V)
    requires
        unique_keys(s),
        !has_key(s, k),
    ensures
        unique_keys(s.push((k, v))),
        entries_map(s.push((k, v))) == entries_map(s).insert(k, v),
{
    let p = s.push((k, v));
    assert forall|a: int, b: int|
        0 <= a < p.len() && 0 <= b < p.len() && a != b implies #[trigger] p[a].0 != #[trigger] p[b].0 by {
        if a < s.len() && b < s.len() {
            assert(p[a] == s[a] && p[b] == s[b]);
        } else if a < s.len() {
            assert(p[a] == s[a]);
        } else if b < s.len() {
            assert(p[b] == s[b]);
        }
    }
    assert forall|x: IpValue| has_key(p, x) <==> (has_key(s, x) || x == k) by {
        if has_key(p, x) {
            let a = choose|a: int| 0 <= a < p.len() && #[trigger] p[a].0 == x;
            if a < s.len() {
                assert(p[a] == s[a]);
            }
        }
        if has_key(s, x) {
            let a = choose|a: int| 0 <= a < s.len() && #[trigger] s[a].0 == x;
            assert(p[a] == s[a]);
        }
        if x == k {
            assert(p[s.len() as int].0 == k);
        }
    }
    assert forall|x: IpValue| has_key(p, x) implies p[key_index(p, x)].1 == (if x == k {
        v
    } else {
        s[key_index(s, x)].1
    }) by {
        let a = key_index(p, x);
        assert(p[a].0 == x);
        if a < s.len() {
            assert(p[a] == s[a]);
            lemma_key_index(s, a);
        }
    }
    assert(entries_map(p) =~= entries_map(s).insert(k, v));
}

impl<V> IpTable<V> {
    /// Whether each address occurs once.
    pub closed spec fn wf(&self) -> bool {
        unique_keys(self.entries@)
    }

    /// The table's contents.
    pub closed spec fn view(&self) -> Map<IpValue, V> {
        entries_map(self.entries@)
    }

    /// An empty table.
    pub fn new() -> (res: Self)
        ensures
            res.wf(),
            res@ == Map::<IpValue, V>::empty(),
    {
        let res = IpTable { entries: Vec::new() };
        assert(res@ =~= Map::<IpValue, V>::empty());
        res
    }

    fn position(&self, ip: IpValue) -> (res: Option<usize>)
        requires
            self.wf(),
        ensures
            match res {
                Some(i) => i < self.entries@.len() && self.entries@[i as int].0 == ip,
                None => !has_key(self.entries@, ip),
            },
    {
        let mut i: usize = 0;
        while i < self.entries.len()
            invariant
                0 <= i <= self.entries@.len(),
                forall|j: int| 0 <= j < i ==> self.entries@[j].0 != ip,
            decreases self.entries@.len() - i,
        {
            if self.entries[i].0 == ip {
                return Some(i);
            }
            i += 1;
        }
        None
    }

    /// Whether `ip` has an entry.
    pub fn contains(&self, ip: IpValue) -> (res: bool)
        requires
            self.wf(),
        ensures
            res == self@.contains_key(ip),
    {
        self.position(ip).is_some()
    }

    /// Sets the entry for `ip`, handing back the one it replaces.
    pub fn insert(&mut self, ip: IpValue, v: V) -> (res: Option<V>)
        requires
            old(self).wf(),
        ensures
            final(self).wf(),
            final(self)@ == old(self)@.insert(ip, v),
            res == (if old(self)@.contains_key(ip) {
                Some(old(self)@[ip])
            } else {
                None
            }),
    {
        match self.position(ip) {
            Some(i) => {
                proof {
                    lemma_key_index(self.entries@, i as int);
                    lemma_remove_entry(self.entries@, i as int);
                }
                let old_entry = self.entries.remove(i);
                proof {
                    assert(!has_key(self.entries@, ip));
                    lemma_push_entry(self.entries@, ip, v);
                }
                self.entries.push((ip, v));
                assert(self@ =~= old(self)@.insert(ip, v));
                Some(old_entry.1)
            },
            None => {
                proof {
                    lemma_push_entry(self.entries@, ip, v);
                }
                self.entries.push((ip, v));
                None
            },
        }
    }

    /// Removes the entry for `ip`, handing it back.
    pub fn remove(&mut self, ip: IpValue) -> (res: Option<V>)
        requires
            old(self).wf(),
        ensures
            final(self).wf(),
            final(self)@ == old(self)@.remove(ip),
            res == (if old(self)@.contains_key(ip) {
                Some(old(self)@[ip])
            } else {
                None
            }),
    {
        match self.position(ip) {
            Some(i) => {
                proof {
                    lemma_key_index(self.entries@, i as int);
                    lemma_remove_entry(self.entries@, i as int);
                }
                let e = self.entries.remove(i);
                Some(e.1)
            },
            None => {
                assert(old(self)@.remove(ip) =~= old(self)@);
                None
            },
        }
    }

    /// The addresses that have an entry.
    pub fn keys(&self) -> (res: Vec<IpValue>)
        requires
            self.wf(),
        ensures
            forall|k: IpValue| self@.contains_key(k) <==> res@.contains(k),
            res@.len() == self@.dom().len(),
    {
        let mut out: Vec<IpValue> = Vec::new();
        let mut i: usize = 0;
        while i < self.entries.len()
            invariant
                0 <= i <= self.entries@.len(),
                out@.len() == i,
                forall|j: int| 0 <= j < i ==> out@[j] == #[trigger] self.entries@[j].0,
            decreases self.entries@.len() - i,
        {
            out.push(self.entries[i].0);
            i += 1;
        }
        assert forall|k: IpValue| self@.contains_key(k) <==> out@.contains(k) by {
            if out@.contains(k) {
                let j = choose|j: int| 0 <= j < out@.len() && out@[j] == k;
                assert(self.entries@[j].0 == k);
            }
            if self@.contains_key(k) {
                let j = choose|j: int| 0 <= j < self.entries@.len() && #[trigger] self.entries@[j].0 == k;
                assert(out@[j] == k);
            }
        }
        proof {
            lemma_dom_len(self.entries@);
        }
        out
    }

    /// Empties the table, handing back every entry.
    pub fn drain(&mut self) -> (res: Vec<(IpValue, V)>)
        requires
            old(self).wf(),
        ensures
            final(self).wf(),
            final(self)@ == Map::<IpValue, V>::empty(),
            unique_keys(res@),
            entries_map(res@) == old(self)@,
    {
        let mut all: Vec<(IpValue, V)> = Vec::new();
        std::mem::swap(&mut all, &mut self.entries);
        assert(self@ =~= Map::<IpValue, V>::empty());
        all
    }
}

proof fn lemma_dom_len<V>(s: Seq<(IpValue, V)>)
    requires
        unique_keys(s),
    ensures
        entries_map(s).dom().len() == s.len(),
        entries_map(s).dom().finite(),
    decreases s.len(),
{
    if s.len() == 0 {
        assert(entries_map(s).dom() =~= Set::<IpValue>::empty());
    } else {
        let last = s.len() - 1;
        lemma_key_index(s, last);
        lemma_remove_entry(s, last);
        let r = s.remove(last);
        lemma_dom_len(r);
        assert(entries_map(r).dom() =~= entries_map(s).dom().remove(s[last].0));
    }
}

impl IpTable<usize> {
    /// The value for `ip`, or 0 when it has none.
    pub fn count(&self, ip: IpValue) -> (res: usize)
        requires
            self.wf(),
        ensures
            res == (if self@.contains_key(ip) {
                self@[ip]
            } else {
                0
            }),
    {
        match self.position(ip) {
            Some(i) => {
                proof {
                    lemma_key_index(self.entries@, i as int);
                }
                self.entries[i].1
            },
            None => 0,
        }
    }
}

} // verus!
