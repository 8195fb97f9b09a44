//! `StrMap`: a map from string keys to values, kept in ascending key order.
//!
//! It stands where an ordered map keyed by `String` is needed: lookups by key,
//! insertion that replaces an existing value, and iteration in key order.

use vstd::prelude::*;

use crate::text::{lemma_lex_lt_irreflexive, lemma_lex_lt_total, lemma_lex_lt_transitive, lex_lt, str_eq, str_lt};

verus! {

/// Some pair of `p` has key `k`.
pub open spec fn has_key<V>(p: Seq<(Seq<char>, V)>, k: Seq<char>) -> bool {
    exists|i: int| 0 <= i < p.len() && #[trigger] p[i].0 == k
}

/// A position of `p` holding key `k` (meaningful when `has_key(p, k)`).
pub open spec fn key_index<V>(p: Seq<(Seq<char>, V)>, k: Seq<char>) -> int {
    choose|i: int| 0 <= i < p.len() && #[trigger] p[i].0 == k
}

/// The map denoted by a sequence of key/value pairs whose keys are distinct.
pub open spec fn pairs_to_map<V>(p: Seq<(Seq<char>, V)>) -> Map<Seq<char>, V> {
    Map::new(|k: Seq<char>| has_key(p, k), |k: Seq<char>| p[key_index(p, k)].1)
}

/// Keys in strictly ascending order.
pub open spec fn keys_ascending<V>(p: Seq<(Seq<char>, V)>) -> bool {
    forall|i: int, j: int| 0 <= i < j < p.len() ==> lex_lt(#[trigger] p[i].0, #[trigger] p[j].0)
}

/// A map from string keys to values, iterated in ascending key order.
#[derive(Debug, PartialEq, Eq)]
pub struct StrMap<V> {
    entries: Vec<(String, V)>,
}

impl<V> StrMap<V> {
    #[verifier::type_invariant]
    spec fn ascending(self) -> bool {
        keys_ascending(self.pairs())
    }

    /// The entries as key/value pairs, in ascending key order.
    pub closed spec fn pairs(&self) -> Seq<(Seq<char>, V)> {
        Seq::new(self.entries@.len(), |i: int| (self.entries@[i].0@, self.entries@[i].1))
    }

    /// An empty map.
    pub fn new() -> (r: Self)
        ensures
            r.pairs().len() == 0,
            r@ == Map::<Seq<char>, V>::empty(),
    {
        let r = StrMap { entries: Vec::new() };
        assert(r@ =~= Map::<Seq<char>, V>::empty());
        r
    }

    /// The number of entries.
    pub fn len(&self) -> (r: usize)
        ensures
            r == self.pairs().len(),
            r == self@.dom().len(),
            keys_ascending(self.pairs()),
    {
        proof {
            use_type_invariant(self);
            self.lemma_dom_len();
        }
        self.entries.len()
    }

    /// Whether the map has no entries.
    pub fn is_empty(&self) -> (r: bool)
        ensures
            r == (self.pairs().len() == 0),
            r == (self@.dom().len() == 0),
    {
        proof {
            use_type_invariant(self);
            self.lemma_dom_len();
        }
        self.entries.len() == 0
    }

    proof fn lemma_dom_len(&self)
        requires
            keys_ascending(self.pairs()),
        ensures
            self@.dom().finite(),
            self@.dom().len() == self.pairs().len(),
    {
        let p = self.pairs();
        let ks = p.map_values(|e: (Seq<char>, V)| e.0);
        assert(self@.dom() =~= ks.to_set()) by {
            assert forall|k: Seq<char>| self@.dom().contains(k) implies ks.to_set().contains(k) by {
                let i = key_index(p, k);
                assert(ks[i] == k);
            }
            assert forall|k: Seq<char>| ks.to_set().contains(k) implies self@.dom().contains(k) by {
                let i = choose|i: int| 0 <= i < ks.len() && ks[i] == k;
                assert(p[i].0 == k);
            }
        }
        assert(ks.no_duplicates()) by {
            assert forall|i: int, j: int| 0 <= i < ks.len() && 0 <= j < ks.len() && i != j implies ks[i] != ks[j] by {
                if i < j {
                    assert(lex_lt(p[i].0, p[j].0));
                    lemma_lex_lt_irreflexive(p[i].0);
                } else {
                    assert(lex_lt(p[j].0, p[i].0));
                    lemma_lex_lt_irreflexive(p[j].0);
                }
            }
        }
        ks.unique_seq_to_set();
    }

    /// The key of the `i`-th entry in key order.
    pub fn key_at(&self, i: usize) -> (r: &String)
        requires
            i < self.pairs().len(),
        ensures
            r@ == self.pairs()[i as int].0,
    {
        &self.entries[i].0
    }

    /// The value of the `i`-th entry in key order.
    pub fn value_at(&self, i: usize) -> (r: &V)
        requires
            i < self.pairs().len(),
        ensures
            *r == self.pairs()[i as int].1,
            self@.contains_key(self.pairs()[i as int].0),
            self@[self.pairs()[i as int].0] == *r,
    {
        proof {
            use_type_invariant(self);
            lemma_pairs_value(self.pairs(), i as int);
        }
        &self.entries[i].1
    }

    /// The position of `key`, if present.
    fn find(&self, key: &str) -> (r: Option<usize>)
        ensures
            r matches Some(i) ==> i < self.pairs().len() && self.pairs()[i as int].0 == key@,
            r is None ==> forall|i: int| 0 <= i < self.pairs().len() ==> #[trigger] self.pairs()[i].0 != key@,
    {
        let mut i: usize = 0;
        while i < self.entries.len()
            invariant
                i <= self.entries.len(),
                forall|j: int| 0 <= j < i ==> #[trigger] self.pairs()[j].0 != key@,
            decreases self.entries.len() - i,
        {
            if str_eq(self.entries[i].0.as_str(), key) {
                return Some(i);
            }
            i = i + 1;
        }
        None
    }

    /// The value stored under `key`.
    pub fn get(&self, key: &str) -> (r: Option<&V>)
        ensures
            r is Some <==> self@.contains_key(key@),
            r matches Some(v) ==> *v == self@[key@],
    {
        proof {
            use_type_invariant(self);
        }
        match self.find(key) {
            Some(i) => {
                proof {
                    lemma_pairs_value(self.pairs(), i as int);
                }
                Some(&self.entries[i].1)
            },
            None => None,
        }
    }

    /// Whether `key` has a value.
    pub fn contains_key(&self, key: &str) -> (r: bool)
        ensures
            r == self@.contains_key(key@),
    {
        self.find(key).is_some()
    }

    /// Store `value` under `key`, returning the value it replaces.
    pub fn insert(&mut self, key: String, value: V) -> (r: Option<V>)
        ensures
            final(self)@ == old(self)@.insert(key@, value),
            r is Some <==> old(self)@.contains_key(key@),
            r matches Some(v) ==> v == old(self)@[key@],
            old(self)@.contains_key(key@) ==> exists|i: int|
                0 <= i < old(self).pairs().len() && old(self).pairs()[i].0 == key@ && old(self).pairs()[i].1
                    == old(self)@[key@] && final(self).pairs() == #[trigger] old(self).pairs().update(
                    i,
                    (key@, value),
                ),
            !old(self)@.contains_key(key@) ==> exists|i: int|
                0 <= i <= old(self).pairs().len() && final(self).pairs() == #[trigger] old(self).pairs().insert(
                    i,
                    (key@, value),
                ),
    {
        proof {
            use_type_invariant(&*self);
        }
        let ghost old_pairs = self.pairs();
        let n = self.entries.len();
        let mut p: usize = 0;
        while p < n && str_lt(self.entries[p].0.as_str(), key.as_str())
            invariant
                n == self.entries@.len(),
                old_pairs == self.pairs(),
                p <= n,
                forall|j: int| 0 <= j < p ==> lex_lt(#[trigger] old_pairs[j].0, key@),
            decreases n - p,
        {
            p = p + 1;
        }
        if p < n && str_eq(self.entries[p].0.as_str(), key.as_str()) {
            proof {
                lemma_pairs_value(old_pairs, p as int);
            }
            let mut entries: Vec<(String, V)> = Vec::new();
            std::mem::swap(&mut entries, &mut self.entries);
            let old_entry = entries.remove(p);
            entries.insert(p, (key, value));
            let ghost new_pairs = old_pairs.update(p as int, (old_pairs[p as int].0, value));
            proof {
                assert(Seq::new(entries@.len(), |i: int| (entries@[i].0@, entries@[i].1))
                    =~= new_pairs);
                assert(keys_ascending(new_pairs));
                lemma_update_map(old_pairs, p as int, value);
                assert(new_pairs == old_pairs.update(p as int, (key@, value)));
            }
            self.entries = entries;
            assert(self.pairs() == old_pairs.update(p as int, (key@, value)));
            Some(old_entry.1)
        } else {
            proof {
                if p < n {
                    lemma_lex_lt_total(old_pairs[p as int].0, key@);
                    assert forall|j: int| p < j < n implies lex_lt(key@, #[trigger] old_pairs[j].0) by {
                        lemma_lex_lt_transitive(key@, old_pairs[p as int].0, old_pairs[j].0);
                    }
                }
                assert forall|j: int| 0 <= j < old_pairs.len() implies #[trigger] old_pairs[j].0 != key@ by {
                    if j < p {
                        lemma_lex_lt_irreflexive(key@);
                    } else {
                        if j > p {
                            lemma_lex_lt_transitive(key@, old_pairs[p as int].0, old_pairs[j].0);
                        }
                        lemma_lex_lt_irreflexive(key@);
                    }
                }
            }
            let ghost kv = key@;
            let mut entries: Vec<(String, V)> = Vec::new();
            std::mem::swap(&mut entries, &mut self.entries);
            entries.insert(p, (key, value));
            let ghost new_pairs = old_pairs.insert(p as int, (kv, value));
            proof {
                assert(Seq::new(entries@.len(), |i: int| (entries@[i].0@, entries@[i].1))
                    =~= new_pairs);
                assert forall|i: int, j: int| 0 <= i < j < new_pairs.len() implies lex_lt(
                    #[trigger] new_pairs[i].0,
                    #[trigger] new_pairs[j].0,
                ) by {
                    if j < p {
                    } else if i > p {
                    } else if i < p && j == p {
                    } else if i < p && j > p {
                        assert(new_pairs[i].0 == old_pairs[i].0);
                        assert(new_pairs[j].0 == old_pairs[j - 1].0);
                        assert(lex_lt(kv, old_pairs[j - 1].0));
                        lemma_lex_lt_transitive(new_pairs[i].0, kv, new_pairs[j].0);
                    } else {
                        assert(new_pairs[j].0 == old_pairs[j - 1].0);
                    }
                }
                lemma_insert_map(old_pairs, p as int, kv, value);
            }
            self.entries = entries;
            assert(self.pairs() == old_pairs.insert(p as int, (kv, value)));
            None
        }
    }
}

impl<V> StrMap<V> {
    /// Remove `key`, returning the value it held.
    pub fn remove(&mut self, key: &str) -> (r: Option<V>)
        ensures
            final(self)@ == old(self)@.remove(key@),
            r is Some <==> old(self)@.contains_key(key@),
            r matches Some(v) ==> v == old(self)@[key@],
    {
        proof {
            use_type_invariant(&*self);
        }
        let ghost old_pairs = self.pairs();
        match self.find(key) {
            Some(i) => {
                proof {
                    lemma_pairs_value(old_pairs, i as int);
                    lemma_remove_map(old_pairs, i as int);
                }
                let mut entries: Vec<(String, V)> = Vec::new();
                std::mem::swap(&mut entries, &mut self.entries);
                let old_entry = entries.remove(i);
                proof {
                    assert(Seq::new(entries@.len(), |j: int| (entries@[j].0@, entries@[j].1))
                        =~= old_pairs.remove(i as int));
                }
                self.entries = entries;
                Some(old_entry.1)
            },
            None => {
                proof {
                    assert(self@ =~= old(self)@.remove(key@)) by {
                        lemma_dom(old_pairs, key@);
                    }
                }
                None
            },
        }
    }
}

impl<V> View for StrMap<V> {
    type V = Map<Seq<char>, V>;

    open spec fn view(&self) -> Map<Seq<char>, V> {
        pairs_to_map(self.pairs())
    }
}

/// With ascending keys, the map holds exactly the pairs: each pair's key
/// maps to its value, and every key of the map is some pair's key.
pub proof fn lemma_view_matches_pairs<V>(m: StrMap<V>)
    requires
        keys_ascending(m.pairs()),
    ensures
        forall|i: int|
            0 <= i < m.pairs().len() ==> m@.contains_key(#[trigger] m.pairs()[i].0) && m@[m.pairs()[i].0]
                == m.pairs()[i].1,
        forall|k: Seq<char>| #[trigger] m@.contains_key(k) ==> has_key(m.pairs(), k),
{
    assert forall|i: int| 0 <= i < m.pairs().len() implies m@.contains_key(#[trigger] m.pairs()[i].0)
        && m@[m.pairs()[i].0] == m.pairs()[i].1 by {
        lemma_pairs_value(m.pairs(), i);
    }
}

/// With ascending keys, the map value at the `i`-th key is the `i`-th value.
pub proof fn lemma_pairs_value<V>(p: Seq<(Seq<char>, V)>, i: int)
    requires
        keys_ascending(p),
        0 <= i < p.len(),
    ensures
        pairs_to_map(p).contains_key(p[i].0),
        pairs_to_map(p)[p[i].0] == p[i].1,
{
    let k = p[i].0;
    assert(pairs_to_map(p).dom().contains(k));
    let c = key_index(p, k);
    if c != i {
        if c < i {
            assert(lex_lt(p[c].0, p[i].0));
        } else {
            assert(lex_lt(p[i].0, p[c].0));
        }
        lemma_lex_lt_irreflexive(k);
    }
}

proof fn lemma_dom<V>(p: Seq<(Seq<char>, V)>, k: Seq<char>)
    ensures
        pairs_to_map(p).contains_key(k) == has_key(p, k),
{
}

proof fn lemma_update_map<V>(p: Seq<(Seq<char>, V)>, i: int, v: V)
    requires
        keys_ascending(p),
        0 <= i < p.len(),
    ensures
        pairs_to_map(p.update(i, (p[i].0, v))) =~= pairs_to_map(p).insert(p[i].0, v),
{
    let q = p.update(i, (p[i].0, v));
    assert(keys_ascending(q));
    let m = pairs_to_map(p).insert(p[i].0, v);
    assert forall|k: Seq<char>| #[trigger] pairs_to_map(q).contains_key(k) <==> m.contains_key(k) by {
        lemma_dom(q, k);
        lemma_dom(p, k);
        if has_key(q, k) {
            let j = key_index(q, k);
            if j != i {
                assert(p[j].0 == k);
            }
        }
        if has_key(p, k) {
            let j = key_index(p, k);
            assert(q[j].0 == k);
        }
        if k == p[i].0 {
            assert(q[i].0 == k);
        }
    }
    assert forall|k: Seq<char>| #[trigger] pairs_to_map(q).contains_key(k) implies pairs_to_map(q)[k] == m[k] by {
        lemma_dom(q, k);
        let j = key_index(q, k);
        lemma_pairs_value(q, j);
        if j != i {
            assert(p[j] == q[j]);
            lemma_pairs_value(p, j);
            if j < i {
                assert(lex_lt(q[j].0, q[i].0));
            } else {
                assert(lex_lt(q[i].0, q[j].0));
            }
            lemma_lex_lt_irreflexive(k);
        }
    }
}

proof fn lemma_insert_map<V>(p: Seq<(Seq<char>, V)>, i: int, k0: Seq<char>, v: V)
    requires
        0 <= i <= p.len(),
        keys_ascending(p),
        keys_ascending(p.insert(i, (k0, v))),
    ensures
        pairs_to_map(p.insert(i, (k0, v))) =~= pairs_to_map(p).insert(k0, v),
{
    let q = p.insert(i, (k0, v));
    let m = pairs_to_map(p).insert(k0, v);
    assert forall|k: Seq<char>| #[trigger] pairs_to_map(q).contains_key(k) <==> m.contains_key(k) by {
        lemma_dom(q, k);
        lemma_dom(p, k);
        if has_key(q, k) {
            let j = key_index(q, k);
            if j < i {
                assert(p[j].0 == k);
            } else if j > i {
                assert(p[j - 1].0 == k);
            }
        }
        if has_key(p, k) {
            let j = key_index(p, k);
            if j < i {
                assert(q[j].0 == k);
            } else {
                assert(q[j + 1].0 == k);
            }
        }
        if k == k0 {
            assert(q[i].0 == k0);
        }
    }
    assert forall|k: Seq<char>| #[trigger] pairs_to_map(q).contains_key(k) implies pairs_to_map(q)[k] == m[k] by {
        lemma_dom(q, k);
        let j = key_index(q, k);
        lemma_pairs_value(q, j);
        if j < i {
            assert(p[j] == q[j]);
            lemma_pairs_value(p, j);
            assert(lex_lt(q[j].0, q[i].0));
            lemma_lex_lt_irreflexive(k);
        } else if j > i {
            assert(p[j - 1] == q[j]);
            lemma_pairs_value(p, j - 1);
            assert(lex_lt(q[i].0, q[j].0));
            lemma_lex_lt_irreflexive(k);
        }
    }
}

proof fn lemma_remove_map<V>(p: Seq<(Seq<char>, V)>, i: int)
    requires
        keys_ascending(p),
        0 <= i < p.len(),
    ensures
        keys_ascending(p.remove(i)),
        pairs_to_map(p.remove(i)) =~= pairs_to_map(p).remove(p[i].0),
{
    let q = p.remove(i);
    let k0 = p[i].0;
    assert forall|a: int, b: int| 0 <= a < b < q.len() implies lex_lt(
        #[trigger] q[a].0,
        #[trigger] q[b].0,
    ) by {
        if a < i && b >= i {
            assert(q[b].0 == p[b + 1].0);
        } else if a >= i {
            assert(q[a].0 == p[a + 1].0);
            assert(q[b].0 == p[b + 1].0);
        }
    }
    let m = pairs_to_map(p).remove(k0);
    assert forall|k: Seq<char>| #[trigger] pairs_to_map(q).contains_key(k) <==> m.contains_key(k) by {
        lemma_dom(q, k);
        lemma_dom(p, k);
        if has_key(q, k) {
            let j = key_index(q, k);
            if j < i {
                assert(p[j].0 == k);
                assert(lex_lt(p[j].0, p[i].0));
                lemma_lex_lt_irreflexive(k);
            } else {
                assert(p[j + 1].0 == k);
                assert(lex_lt(p[i].0, p[j + 1].0));
                lemma_lex_lt_irreflexive(k);
            }
        }
        if has_key(p, k) && k != k0 {
            let j = key_index(p, k);
            if j < i {
                assert(q[j].0 == k);
            } else if j > i {
                assert(q[j - 1].0 == k);
            }
        }
    }
    assert forall|k: Seq<char>| #[trigger] pairs_to_map(q).contains_key(k) implies pairs_to_map(q)[k] == m[k] by {
        lemma_dom(q, k);
        let j = key_index(q, k);
        lemma_pairs_value(q, j);
        if j < i {
            assert(p[j] == q[j]);
            lemma_pairs_value(p, j);
        } else {
            assert(p[j + 1] == q[j]);
            lemma_pairs_value(p, j + 1);
        }
    }
}

/// Every key of the map appears among its entries.
pub proof fn lemma_key_in_pairs<V>(m: StrMap<V>, k: Seq<char>)
    ensures
        m@.contains_key(k) ==> exists|j: int| 0 <= j < m.pairs().len() && #[trigger] m.pairs()[j].0 == k,
{
    lemma_dom(m.pairs(), k);
}

} // verus!
