//! A map from byte-string paths to values, kept as a vector of entries with
//! pairwise distinct keys.

use vstd::prelude::*;

verus! {

/// No two entries share a key.
pub open spec fn unique_keys<V>(s: Seq<(Vec<u8>, V)>) -> bool {
    forall|i: int, j: int| 0 <= i < s.len() && 0 <= j < s.len() && i != j ==> #[trigger] s[i].0@ != #[trigger] s[j].0@
}

/// Some entry has key `k`.
pub open spec fn has_path<V>(s: Seq<(Vec<u8>, V)>, k: Seq<u8>) -> bool {
    exists|i: int| 0 <= i < s.len() && #[trigger] s[i].0@ == k
}

/// The map denoted by the entries.
pub open spec fn entries_view<V>(s: Seq<(Vec<u8>, V)>) -> Map<Seq<u8>, V> {
    Map::new(
        |k: Seq<u8>| has_path(s, k),
        |k: Seq<u8>| s[choose|i: int| 0 <= i < s.len() && #[trigger] s[i].0@ == k].1,
    )
}

proof fn lemma_view_at<V>(s: Seq<(Vec<u8>, V)>, i: int)
    requires
        unique_keys(s),
        0 <= i < s.len(),
    ensures
        entries_view(s).contains_key(s[i].0@),
        entries_view(s)[s[i].0@] == s[i].1,
{
    assert(has_path(s, s[i].0@));
    let j = choose|j: int| 0 <= j < s.len() && #[trigger] s[j].0@ == s[i].0@;
    assert(j == i);
}

proof fn lemma_view_ext<V>(s: Seq<(Vec<u8>, V)>, m: Map<Seq<u8>, V>)
    requires
        unique_keys(s),
        forall|k: Seq<u8>| m.contains_key(k) <==> has_path(s, k),
        forall|i: int| 0 <= i < s.len() ==> m[#[trigger] s[i].0@] == s[i].1,
    ensures
        entries_view(s) == m,
{
    assert forall|k: Seq<u8>| #[trigger] entries_view(s).contains_key(k) implies entries_view(s)[k] == m[k] by {
        let i = choose|i: int| 0 <= i < s.len() && #[trigger] s[i].0@ == k;
        lemma_view_at(s, i);
    }
    assert(entries_view(s) =~= m);
}

/// `k` lies strictly below `d` (`d` followed by a slash is a prefix of `k`).
pub open spec fn is_under(d: Seq<u8>, k: Seq<u8>) -> bool {
    k.len() > d.len() && k.subrange(0, d.len() as int) == d && k[d.len() as int] == 0x2Fu8
}

/// Byte strings are equal.
pub fn bytes_eq(a: &[u8], b: &[u8]) -> (r: bool)
    ensures
        r == (a@ == b@),
{
    if a.len() != b.len() {
        return false;
    }
    let mut i: usize = 0;
    while i < a.len()
        invariant
            i <= a.len(),
            a.len() == b.len(),
            forall|j: int| 0 <= j < i ==> a@[j] == b@[j],
        decreases a.len() - i,
    {
        if a[i] != b[i] {
            return false;
        }
        i += 1;
    }
    assert(a@ =~= b@);
    true
}

/// Byte strings in lexicographic order (a proper prefix comes first), as
/// byte strings and strings compare.
pub open spec fn lex_lt(a: Seq<u8>, b: Seq<u8>) -> bool
    decreases a.len(),
{
    if a.len() == 0 {
        b.len() > 0
    } else if b.len() == 0 {
        false
    } else if a[0] != b[0] {
        a[0] < b[0]
    } else {
        lex_lt(a.drop_first(), b.drop_first())
    }
}

/// The order is strict.
pub proof fn lemma_lex_irreflexive(a: Seq<u8>)
    ensures
        !lex_lt(a, a),
    decreases a.len(),
{
    if a.len() > 0 {
        lemma_lex_irreflexive(a.drop_first());
    }
}

/// The order is transitive.
pub proof fn lemma_lex_transitive(a: Seq<u8>, b: Seq<u8>, c: Seq<u8>)
    requires
        lex_lt(a, b),
        lex_lt(b, c),
    ensures
        lex_lt(a, c),
    decreases a.len(),
{
    if a.len() > 0 && b.len() > 0 && c.len() > 0 && a[0] == b[0] && b[0] == c[0] {
        lemma_lex_transitive(a.drop_first(), b.drop_first(), c.drop_first());
    }
}

/// Distinct byte strings are ordered one way or the other.
pub proof fn lemma_lex_total(a: Seq<u8>, b: Seq<u8>)
    requires
        a != b,
    ensures
        lex_lt(a, b) || lex_lt(b, a),
    decreases a.len(),
{
    if a.len() > 0 && b.len() > 0 && a[0] == b[0] {
        if a.drop_first() == b.drop_first() {
            assert(a =~= seq![a[0]] + a.drop_first());
            assert(b =~= seq![b[0]] + b.drop_first());
        }
        lemma_lex_total(a.drop_first(), b.drop_first());
    } else if a.len() == 0 && b.len() == 0 {
        assert(a =~= b);
    }
}

/// A common prefix does not change the order.
pub proof fn lemma_lex_prefix(p: Seq<u8>, a: Seq<u8>, b: Seq<u8>)
    ensures
        lex_lt(p + a, p + b) == lex_lt(a, b),
    decreases p.len(),
{
    if p.len() > 0 {
        assert((p + a).drop_first() =~= p.drop_first() + a);
        assert((p + b).drop_first() =~= p.drop_first() + b);
        lemma_lex_prefix(p.drop_first(), a, b);
    } else {
        assert(p + a =~= a);
        assert(p + b =~= b);
    }
}

/// Whether `a` comes before `b` (`lex_lt`).
pub fn bytes_lt(a: &[u8], b: &[u8]) -> (r: bool)
    ensures
        r == lex_lt(a@, b@),
{
    let mut i: usize = 0;
    assert(a@.skip(0) =~= a@ && b@.skip(0) =~= b@);
    while i < a.len() && i < b.len()
        invariant
            i <= a@.len() && i <= b@.len(),
            lex_lt(a@, b@) == lex_lt(a@.skip(i as int), b@.skip(i as int)),
        decreases a@.len() - i,
    {
        if a[i] != b[i] {
            return a[i] < b[i];
        }
        assert(a@.skip(i as int).drop_first() =~= a@.skip(i + 1));
        assert(b@.skip(i as int).drop_first() =~= b@.skip(i + 1));
        i += 1;
    }
    i < b.len()
}

/// Whether `k` lies strictly below `d`.
pub fn under(d: &[u8], k: &[u8]) -> (r: bool)
    ensures
        r == is_under(d@, k@),
{
    if k.len() <= d.len() {
        return false;
    }
    let mut i: usize = 0;
    while i < d.len()
        invariant
            i <= d.len() < k.len(),
            forall|j: int| 0 <= j < i ==> k@[j] == d@[j],
        decreases d.len() - i,
    {
        if k[i] != d[i] {
            assert(k@.subrange(0, d.len() as int)[i as int] != d@[i as int]);
            return false;
        }
        i += 1;
    }
    assert(k@.subrange(0, d.len() as int) =~= d@);
    k[d.len()] == 0x2F
}

/// A map from paths (byte strings) to values.
pub struct PathMap<V> {
    entries: Vec<(Vec<u8>, V)>,
}

impl<V> View for PathMap<V> {
    type V = Map<Seq<u8>, V>;

    closed spec fn view(&self) -> Map<Seq<u8>, V> {
        entries_view(self.entries@)
    }
}

impl<V> PathMap<V> {
    #[verifier::type_invariant]
    spec fn inv(self) -> bool {
        unique_keys(self.entries@)
    }

    /// The keys in storage order.
    pub closed spec fn key_seq(&self) -> Seq<Seq<u8>> {
        self.entries@.map_values(|e: (Vec<u8>, V)| e.0@)
    }

    /// An empty map.
    pub fn new() -> (m: Self)
        ensures
            m@ == Map::<Seq<u8>, V>::empty(),
    {
        let m = PathMap { entries: Vec::new() };
        assert(m@ =~= Map::<Seq<u8>, V>::empty());
        m
    }

    /// Number of entries; the stored keys are exactly the keys of the map,
    /// each once.
    pub fn len(&self) -> (n: usize)
        ensures
            n == self.key_seq().len(),
            self.key_seq().no_duplicates(),
            forall|k: Seq<u8>| self@.contains_key(k) <==> self.key_seq().contains(k),
    {
        proof {
            use_type_invariant(self);
            let s = self.entries@;
            assert forall|k: Seq<u8>| self@.contains_key(k) <==> self.key_seq().contains(k) by {
                if self@.contains_key(k) {
                    let i = choose|i: int| 0 <= i < s.len() && #[trigger] s[i].0@ == k;
                    assert(self.key_seq()[i] == k);
                }
                if self.key_seq().contains(k) {
                    let i = choose|i: int| 0 <= i < self.key_seq().len() && self.key_seq()[i] == k;
                    assert(s[i].0@ == k);
                }
            }
            assert forall|i: int, j: int| 0 <= i < self.key_seq().len() && 0 <= j < self.key_seq().len() && i != j
                implies self.key_seq()[i] != self.key_seq()[j] by {
                assert(s[i].0@ != s[j].0@);
            }
        }
        self.entries.len()
    }

    /// The key stored at position `i`.
    pub fn key_at(&self, i: usize) -> (k: &Vec<u8>)
        requires
            i < self.key_seq().len(),
        ensures
            k@ == self.key_seq()[i as int],
            self@.contains_key(k@),
    {
        proof {
            use_type_invariant(self);
            lemma_view_at(self.entries@, i as int);
        }
        &self.entries[i].0
    }

    /// The value stored at position `i`.
    pub fn value_at(&self, i: usize) -> (v: &V)
        requires
            i < self.key_seq().len(),
        ensures
            *v == self@[self.key_seq()[i as int]],
    {
        proof {
            use_type_invariant(self);
            lemma_view_at(self.entries@, i as int);
        }
        &self.entries[i].1
    }

    /// Position of key `k`, if present.
    pub fn find(&self, k: &[u8]) -> (r: Option<usize>)
        ensures
            r is None <==> !self@.contains_key(k@),
            r matches Some(i) ==> i < self.key_seq().len() && self.key_seq()[i as int] == k@,
    {
        proof {
            use_type_invariant(self);
        }
        let mut i: usize = 0;
        while i < self.entries.len()
            invariant
                i <= self.entries@.len(),
                unique_keys(self.entries@),
                forall|j: int| 0 <= j < i ==> self.entries@[j].0@ != k@,
            decreases self.entries@.len() - i,
        {
            if bytes_eq(self.entries[i].0.as_slice(), k) {
                proof {
                    lemma_view_at(self.entries@, i as int);
                }
                return Some(i);
            }
            i += 1;
        }
        None
    }

    /// Replaces the value at position `i`, returning the previous one.
    pub fn replace_value(&mut self, i: usize, v: V) -> (r: V)
        requires
            i < old(self).key_seq().len(),
        ensures
            r == old(self)@[old(self).key_seq()[i as int]],
            final(self)@ == old(self)@.insert(old(self).key_seq()[i as int], v),
            final(self).key_seq() == old(self).key_seq(),
    {
        proof {
            use_type_invariant(&*self);
        }
        let ghost s = self.entries@;
        let ghost k = s[i as int].0@;
        let mut entries = Vec::new();
        std::mem::swap(&mut entries, &mut self.entries);
        let (key, old_v) = entries.remove(i);
        entries.insert(i, (key, v));
        let ghost t = entries@;
        proof {
            lemma_view_at(s, i as int);
            assert(t =~= s.update(i as int, (s[i as int].0, v)));
            assert(unique_keys(t)) by {
                assert forall|a: int, b: int| 0 <= a < t.len() && 0 <= b < t.len() && a != b implies #[trigger] t[a].0@ != #[trigger] t[b].0@ by {
                    assert(s[a].0@ != s[b].0@);
                }
            }
            assert forall|kk: Seq<u8>| entries_view(s).insert(k, v).contains_key(kk) <==> has_path(t, kk) by {
                if has_path(s, kk) {
                    let j = choose|j: int| 0 <= j < s.len() && #[trigger] s[j].0@ == kk;
                    assert(t[j].0@ == kk);
                }
                if has_path(t, kk) {
                    let j = choose|j: int| 0 <= j < t.len() && #[trigger] t[j].0@ == kk;
                    assert(s[j].0@ == kk);
                }
                assert(s[i as int].0@ == k);
            }
            assert forall|j: int| 0 <= j < t.len() implies entries_view(s).insert(k, v)[#[trigger] t[j].0@] == t[j].1 by {
                if j != i {
                    lemma_view_at(s, j);
                    assert(s[j].0@ != s[i as int].0@);
                }
            }
            lemma_view_ext(t, entries_view(s).insert(k, v));
            assert(t.map_values(|e: (Vec<u8>, V)| e.0@) =~= s.map_values(|e: (Vec<u8>, V)| e.0@));
        }
        self.entries = entries;
        old_v
    }

    /// Adds an entry under a key not yet present.
    pub fn push(&mut self, k: Vec<u8>, v: V)
        requires
            !old(self)@.contains_key(k@),
        ensures
            final(self)@ == old(self)@.insert(k@, v),
    {
        proof {
            use_type_invariant(&*self);
        }
        let ghost s = self.entries@;
        let ghost kv = k@;
        let mut entries = Vec::new();
        std::mem::swap(&mut entries, &mut self.entries);
        entries.push((k, v));
        let ghost t = entries@;
        proof {
            assert(t =~= s.push(t[s.len() as int]));
            assert(unique_keys(t)) by {
                assert forall|a: int, b: int| 0 <= a < t.len() && 0 <= b < t.len() && a != b implies #[trigger] t[a].0@ != #[trigger] t[b].0@ by {
                    if a < s.len() && b < s.len() {
                        assert(s[a].0@ != s[b].0@);
                    } else if a < s.len() {
                        assert(!has_path(s, kv));
                        assert(s[a].0@ != kv);
                    } else {
                        assert(!has_path(s, kv));
                        assert(s[b].0@ != kv);
                    }
                }
            }
            assert forall|kk: Seq<u8>| entries_view(s).insert(kv, v).contains_key(kk) <==> has_path(t, kk) by {
                if has_path(s, kk) {
                    let j = choose|j: int| 0 <= j < s.len() && #[trigger] s[j].0@ == kk;
                    assert(t[j].0@ == kk);
                }
                if has_path(t, kk) && kk != kv {
                    let j = choose|j: int| 0 <= j < t.len() && #[trigger] t[j].0@ == kk;
                    assert(s[j].0@ == kk);
                }
                assert(t[s.len() as int].0@ == kv);
            }
            assert forall|j: int| 0 <= j < t.len() implies entries_view(s).insert(kv, v)[#[trigger] t[j].0@] == t[j].1 by {
                if j < s.len() {
                    lemma_view_at(s, j);
                    assert(s[j].0@ != kv);
                }
            }
            lemma_view_ext(t, entries_view(s).insert(kv, v));
        }
        self.entries = entries;
    }

    /// Removes every entry whose key lies strictly below `d`.
    pub fn remove_under(&mut self, d: &[u8])
        ensures
            forall|k: Seq<u8>| #[trigger] final(self)@.contains_key(k) <==> old(self)@.contains_key(k) && !is_under(d@, k),
            forall|k: Seq<u8>| #[trigger] final(self)@.contains_key(k) ==> final(self)@[k] == old(self)@[k],
    {
        proof {
            use_type_invariant(&*self);
        }
        let ghost s = self.entries@;
        let mut entries = Vec::new();
        std::mem::swap(&mut entries, &mut self.entries);
        let mut kept: Vec<(Vec<u8>, V)> = Vec::new();
        let ghost m = entries_view(s);
        while entries.len() > 0
            invariant
                unique_keys(s),
                m == entries_view(s),
                unique_keys(kept@),
                forall|j: int| 0 <= j < kept@.len() ==> m.contains_key(#[trigger] kept@[j].0@) && !is_under(d@, kept@[j].0@) && m[kept@[j].0@] == kept@[j].1,
                forall|j: int| 0 <= j < entries@.len() ==> #[trigger] entries@[j] == s[j],
                entries@.len() <= s.len(),
                forall|k: Seq<u8>| m.contains_key(k) && !is_under(d@, k) ==> has_path(kept@, k) || exists|j: int| 0 <= j < entries@.len() && #[trigger] s[j].0@ == k,
                forall|j: int, l: int| 0 <= j < kept@.len() && 0 <= l < entries@.len() ==> #[trigger] kept@[j].0@ != #[trigger] s[l].0@,
            decreases entries@.len(),
        {
            let ghost before = entries@;
            let e = entries.pop().unwrap();
            let ghost idx = entries@.len() as int;
            proof {
                assert(e == s[idx]);
                lemma_view_at(s, idx);
            }
            if !under(d, e.0.as_slice()) {
                let ghost kept_before = kept@;
                kept.push(e);
                proof {
                    assert forall|a: int, b: int| 0 <= a < kept@.len() && 0 <= b < kept@.len() && a != b implies #[trigger] kept@[a].0@ != #[trigger] kept@[b].0@ by {
                        if a < kept_before.len() && b < kept_before.len() {
                            assert(kept_before[a].0@ != kept_before[b].0@);
                        } else if a < kept_before.len() {
                            assert(kept_before[a].0@ != s[idx].0@);
                        } else {
                            assert(kept_before[b].0@ != s[idx].0@);
                        }
                    }
                    assert forall|k: Seq<u8>| m.contains_key(k) && !is_under(d@, k) implies has_path(kept@, k) || exists|j: int| 0 <= j < entries@.len() && #[trigger] s[j].0@ == k by {
                        if !has_path(kept_before, k) {
                            let j = choose|j: int| 0 <= j < before.len() && #[trigger] s[j].0@ == k;
                            if j == idx {
                                assert(kept@[kept_before.len() as int].0@ == k);
                            } else {
                                assert(0 <= j < entries@.len());
                            }
                        } else {
                            let j = choose|j: int| 0 <= j < kept_before.len() && #[trigger] kept_before[j].0@ == k;
                            assert(kept@[j].0@ == k);
                        }
                    }
                    assert forall|j: int, l: int| 0 <= j < kept@.len() && 0 <= l < entries@.len() implies #[trigger] kept@[j].0@ != #[trigger] s[l].0@ by {
                        if j < kept_before.len() {
                        } else {
                            assert(s[idx].0@ != s[l].0@);
                        }
                    }
                }
            } else {
                proof {
                    assert forall|k: Seq<u8>| m.contains_key(k) && !is_under(d@, k) implies has_path(kept@, k) || exists|j: int| 0 <= j < entries@.len() && #[trigger] s[j].0@ == k by {
                        if !has_path(kept@, k) {
                            let j = choose|j: int| 0 <= j < before.len() && #[trigger] s[j].0@ == k;
                            if j == idx {
                                assert(false);
                            } else {
                                assert(0 <= j < entries@.len());
                            }
                        }
                    }
                }
            }
        }
        proof {
            let t = kept@;
            assert forall|k: Seq<u8>| #[trigger] entries_view(t).contains_key(k) <==> m.contains_key(k) && !is_under(d@, k) by {
                if has_path(t, k) {
                    let j = choose|j: int| 0 <= j < t.len() && #[trigger] t[j].0@ == k;
                }
            }
            assert forall|k: Seq<u8>| #[trigger] entries_view(t).contains_key(k) implies entries_view(t)[k] == m[k] by {
                let j = choose|j: int| 0 <= j < t.len() && #[trigger] t[j].0@ == k;
                lemma_view_at(t, j);
            }
        }
        self.entries = kept;
    }
}

} // verus!
