//! A map keyed by `u64`, held in std's `BTreeMap`, whose entries are also
//! reachable by position in increasing key order.

use vstd::prelude::*;
use std::collections::BTreeMap;
use vstd::std_specs::btree::{axiom_increasing_seq_meaning, axiom_spec_keys_iter, increasing_seq, spec_keys_iter};
use vstd::std_specs::cmp::OrdSpec;
use vstd::std_specs::iter::IteratorSpec;

verus! {

broadcast use vstd::std_specs::btree::group_btree_axioms;

/// `s` lists the keys `d`, in increasing order.
pub open spec fn in_key_order(s: Seq<u64>, d: Set<u64>) -> bool {
    &&& forall|i: int, j: int| 0 <= i < j < s.len() ==> s[i] < s[j]
    &&& forall|k: u64| #[trigger] d.contains(k) <==> s.contains(k)
}

/// Only one sequence lists a set of keys in increasing order.
proof fn lemma_key_order_unique(s: Seq<u64>, t: Seq<u64>, d: Set<u64>)
    requires
        in_key_order(s, d),
        in_key_order(t, d),
    ensures
        s == t,
    decreases s.len(),
{
    if s.len() == 0 {
        if t.len() > 0 {
            assert(d.contains(t[0]));
            assert(s.contains(t[0]));
        }
        assert(s =~= t);
    } else {
        assert(d.contains(s[0]));
        assert(t.contains(s[0]));
        let j = choose|j: int| 0 <= j < t.len() && t[j] == s[0];
        assert(d.contains(t[0]));
        assert(s.contains(t[0]));
        let i = choose|i: int| 0 <= i < s.len() && s[i] == t[0];
        assert(s[0] == t[0]) by {
            if i > 0 {
                assert(s[0] < s[i]);
            }
            if j > 0 {
                assert(t[0] < t[j]);
            }
        }
        let d2 = d.remove(s[0]);
        let s2 = s.drop_first();
        let t2 = t.drop_first();
        assert forall|k: u64| #[trigger] d2.contains(k) <==> s2.contains(k) by {
            if s2.contains(k) {
                let a = choose|a: int| 0 <= a < s2.len() && s2[a] == k;
                assert(s[a + 1] == k && s[0] < s[a + 1]);
                assert(s.contains(k));
            }
            if d2.contains(k) {
                assert(s.contains(k));
                let a = choose|a: int| 0 <= a < s.len() && s[a] == k;
                assert(a > 0);
                assert(s2[a - 1] == k);
            }
        }
        assert forall|k: u64| #[trigger] d2.contains(k) <==> t2.contains(k) by {
            if t2.contains(k) {
                let a = choose|a: int| 0 <= a < t2.len() && t2[a] == k;
                assert(t[a + 1] == k && t[0] < t[a + 1]);
                assert(t.contains(k));
            }
            if d2.contains(k) {
                assert(t.contains(k));
                let a = choose|a: int| 0 <= a < t.len() && t[a] == k;
                assert(a > 0);
                assert(t2[a - 1] == k);
            }
        }
        assert forall|a: int, b: int| 0 <= a < b < s2.len() implies s2[a] < s2[b] by {
            assert(s2[a] == s[a + 1] && s2[b] == s[b + 1]);
        }
        assert forall|a: int, b: int| 0 <= a < b < t2.len() implies t2[a] < t2[b] by {
            assert(t2[a] == t[a + 1] && t2[b] == t[b + 1]);
        }
        lemma_key_order_unique(s2, t2, d2);
        assert(s =~= t) by {
            assert forall|a: int| 0 <= a < s.len() implies s[a] == t[a] by {
                if a > 0 {
                    assert(s[a] == s2[a - 1] && t[a] == t2[a - 1]);
                }
            }
        }
    }
}

/// The keys std's `BTreeMap` walks, in the order it walks them, list its
/// keys in increasing order.
proof fn lemma_walk_order<V>(m: &BTreeMap<u64, V>)
    ensures
        in_key_order(spec_keys_iter(m).remaining().unref(), m@.dom()),
        spec_keys_iter(m).remaining().unref().len() == m@.dom().len(),
        m@.dom().finite(),
{
    broadcast use vstd::laws_cmp::lemma_ref_obeys_cmp_spec;

    axiom_spec_keys_iter(m);
    let r = spec_keys_iter(m).remaining();
    let s = r.unref();
    assert(vstd::laws_cmp::obeys_cmp::<&u64>());
    axiom_increasing_seq_meaning::<&u64>(r);
    assert forall|i: int, j: int| 0 <= i < j < s.len() implies s[i] < s[j] by {
        assert(OrdSpec::cmp_spec(&r[i], &r[j]) is Less);
    }
    assert forall|k: u64| #[trigger] m@.dom().contains(k) <==> s.contains(k) by {
        if s.contains(k) {
            let a = choose|a: int| 0 <= a < s.len() && s[a] == k;
            assert(s.to_set().contains(k));
        }
        if m@.dom().contains(k) {
            assert(s.to_set().contains(k));
        }
    }
}

/// A map from `u64` keys to values.
pub struct IntMap<V> {
    map: BTreeMap<u64, V>,
}

impl<V> View for IntMap<V> {
    type V = Map<u64, V>;

    closed spec fn view(&self) -> Map<u64, V> {
        self.map@
    }
}

impl<V> IntMap<V> {
    /// The keys in increasing order.
    pub closed spec fn key_seq(&self) -> Seq<u64> {
        choose|s: Seq<u64>| in_key_order(s, self.map@.dom())
    }

    /// The values in key order.
    pub closed spec fn value_seq(&self) -> Seq<V> {
        self.key_seq().map_values(|k: u64| self.map@[k])
    }

    proof fn lemma_keys(&self)
        ensures
            in_key_order(self.key_seq(), self@.dom()),
            self.key_seq() == spec_keys_iter(&self.map).remaining().unref(),
            self.key_seq().len() == self@.len(),
            self.value_seq().len() == self@.len(),
            forall|i: int| 0 <= i < self.key_seq().len() ==> self.value_seq()[i] == self@[#[trigger] self.key_seq()[i]],
    {
        lemma_walk_order(&self.map);
        let w = spec_keys_iter(&self.map).remaining().unref();
        lemma_key_order_unique(self.key_seq(), w, self.map@.dom());
    }

    /// The keys, walked in increasing order.
    fn keys_in_order(&self) -> (v: Vec<u64>)
        ensures
            v@ == self.key_seq(),
    {
        let mut v: Vec<u64> = Vec::new();
        for k in it: self.map.keys()
            invariant
                v@.len() == it.index(),
                forall|i: int| 0 <= i < it.index() ==> v@[i] == *it.seq()[i],
        {
            v.push(*k);
        }
        proof {
            self.lemma_keys();
        }
        assert(v@ =~= spec_keys_iter(&self.map).remaining().unref());
        v
    }

    /// An empty map.
    pub fn new() -> (m: Self)
        ensures
            m@ == Map::<u64, V>::empty(),
            m.key_seq().len() == 0,
    {
        let m = IntMap { map: BTreeMap::new() };
        proof {
            m.lemma_keys();
        }
        m
    }

    /// Number of entries.
    pub fn len(&self) -> (n: usize)
        ensures
            n == self@.len(),
            n == self.key_seq().len(),
            n == self.value_seq().len(),
            forall|i: int, j: int| 0 <= i < j < n ==> self.key_seq()[i] < self.key_seq()[j],
            forall|k: u64| self@.contains_key(k) <==> self.key_seq().contains(k),
            forall|i: int| 0 <= i < n ==> self@[#[trigger] self.key_seq()[i]] == self.value_seq()[i],
    {
        proof {
            self.lemma_keys();
        }
        self.map.len()
    }

    /// The value stored under `k`, if any.
    pub fn get(&self, k: u64) -> (r: Option<&V>)
        ensures
            r is Some <==> self@.contains_key(k),
            r matches Some(v) ==> *v == self@[k],
    {
        self.map.get(&k)
    }

    /// Stores `v` under `k`, returning the value it replaces.
    pub fn insert(&mut self, k: u64, v: V) -> (r: Option<V>)
        ensures
            final(self)@ == old(self)@.insert(k, v),
            r is Some <==> old(self)@.contains_key(k),
            r matches Some(o) ==> o == old(self)@[k],
    {
        self.map.insert(k, v)
    }

    /// Removes the entry under `k`, returning its value.
    pub fn remove(&mut self, k: u64) -> (r: Option<V>)
        ensures
            final(self)@ == old(self)@.remove(k),
            r is Some <==> old(self)@.contains_key(k),
            r matches Some(o) ==> o == old(self)@[k],
    {
        self.map.remove(&k)
    }

    /// The entry with the smallest key, if any.
    pub fn first(&self) -> (r: Option<(u64, &V)>)
        ensures
            r is None <==> self@.len() == 0,
            r matches Some(e) ==> {
                &&& self@.contains_key(e.0)
                &&& *e.1 == self@[e.0]
                &&& forall|k: u64| self@.contains_key(k) ==> e.0 <= k
            },
    {
        proof {
            self.lemma_keys();
        }
        if self.map.len() == 0 {
            return None;
        }
        let k = self.key_at(0);
        proof {
            let ks = self.key_seq();
            assert(self@.dom().contains(ks[0])) by {
                assert(ks.contains(ks[0]));
            }
            assert forall|kk: u64| self@.contains_key(kk) implies k <= kk by {
                assert(self@.dom().contains(kk));
                let j = choose|j: int| 0 <= j < ks.len() && ks[j] == kk;
                if j > 0 {
                    assert(ks[0] < ks[j]);
                }
            }
        }
        match self.map.get(&k) {
            Some(v) => Some((k, v)),
            None => None,
        }
    }

    /// Key of the `i`-th entry in key order.
    pub fn key_at(&self, i: usize) -> (k: u64)
        requires
            i < self.key_seq().len(),
        ensures
            k == self.key_seq()[i as int],
    {
        let ks = self.keys_in_order();
        ks[i]
    }

    /// Value of the `i`-th entry in key order.
    pub fn value_at(&self, i: usize) -> (v: &V)
        requires
            i < self.key_seq().len(),
        ensures
            *v == self.value_seq()[i as int],
    {
        proof {
            self.lemma_keys();
        }
        let k = self.key_at(i);
        proof {
            assert(self.key_seq().contains(k));
        }
        self.map.get(&k).unwrap()
    }

    /// Replaces the value of the `i`-th entry in key order, returning the old one.
    pub fn replace_at(&mut self, i: usize, v: V) -> (r: V)
        requires
            i < old(self).key_seq().len(),
        ensures
            r == old(self).value_seq()[i as int],
            old(self).value_seq().len() == old(self).key_seq().len(),
            final(self).key_seq() == old(self).key_seq(),
            final(self).value_seq() == old(self).value_seq().update(i as int, v),
            final(self)@ == old(self)@.insert(old(self).key_seq()[i as int], v),
    {
        proof {
            self.lemma_keys();
        }
        let k = self.key_at(i);
        proof {
            assert(self.key_seq().contains(k));
        }
        let r = self.map.insert(k, v).unwrap();
        proof {
            let o = old(self);
            assert(self@.dom() =~= o@.dom());
            self.lemma_keys();
            o.lemma_keys();
            lemma_key_order_unique(self.key_seq(), o.key_seq(), o@.dom());
            assert forall|j: int| 0 <= j < o.key_seq().len() implies self.value_seq()[j] == o.value_seq().update(i as int, v)[j] by {
                if j != i {
                    assert(o.key_seq()[j] != o.key_seq()[i as int]) by {
                        if j < i {
                            assert(o.key_seq()[j] < o.key_seq()[i as int]);
                        } else {
                            assert(o.key_seq()[i as int] < o.key_seq()[j]);
                        }
                    }
                }
            }
            assert(self.value_seq() =~= o.value_seq().update(i as int, v));
        }
        r
    }
}

} // verus!
