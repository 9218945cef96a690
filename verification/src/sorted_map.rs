//! A map keyed by text, kept in ascending key order: what a `BTreeMap<String, V>`
//! gives, with its contents stated as a `Map` and its order as `text_less`.
use vstd::prelude::*;
use crate::text::{
    text_less, text_order, TextOrder, lemma_text_less_irreflexive, lemma_text_less_transitive,
};

verus! {

/// Keys in strictly ascending order (so no key occurs twice).
pub open spec fn ascending(ks: Seq<Seq<char>>) -> bool {
    forall|i: int, j: int| 0 <= i < j < ks.len() ==> text_less(#[trigger] ks[i], #[trigger] ks[j])
}

/// The map that parallel key and value sequences stand for.
pub open spec fn map_of<V>(ks: Seq<Seq<char>>, vs: Seq<V>) -> Map<Seq<char>, V> {
    Map::new(|k: Seq<char>| ks.contains(k), |k: Seq<char>| vs[ks.index_of(k)])
}

/// A map from text keys to values; iteration goes in ascending key order.
pub struct SortedTextMap<V> {
    keys: Vec<String>,
    values: Vec<V>,
}

pub(crate) proof fn lemma_ascending_distinct(ks: Seq<Seq<char>>)
    requires
        ascending(ks),
    ensures
        ks.no_duplicates(),
        forall|i: int, j: int| 0 <= i < ks.len() && 0 <= j < ks.len() && i != j ==> ks[i] != ks[j],
{
    assert forall|i: int, j: int| 0 <= i < ks.len() && 0 <= j < ks.len() && i != j implies ks[i]
        != ks[j] by {
        if i < j {
            assert(text_less(ks[i], ks[j]));
            lemma_text_less_irreflexive(ks[i]);
        } else {
            assert(text_less(ks[j], ks[i]));
            lemma_text_less_irreflexive(ks[j]);
        }
    }
}

proof fn lemma_lookup<V>(ks: Seq<Seq<char>>, vs: Seq<V>, i: int)
    requires
        ascending(ks),
        0 <= i < ks.len(),
    ensures
        ks.index_of(ks[i]) == i,
        map_of(ks, vs).contains_key(ks[i]),
        map_of(ks, vs)[ks[i]] == vs[i],
{
    lemma_ascending_distinct(ks);
    assert(ks.contains(ks[i]));
    let j = ks.index_of(ks[i]);
    assert(0 <= j < ks.len() && ks[j] == ks[i]);
}

proof fn lemma_dom_len<V>(ks: Seq<Seq<char>>, vs: Seq<V>)
    requires
        ascending(ks),
    ensures
        map_of(ks, vs).dom() == ks.to_set(),
        map_of(ks, vs).len() == ks.len(),
{
    lemma_ascending_distinct(ks);
    assert(map_of(ks, vs).dom() =~= ks.to_set());
    ks.unique_seq_to_set();
}

proof fn lemma_insert_at<V>(ks: Seq<Seq<char>>, vs: Seq<V>, p: int, k: Seq<char>, v: V)
    requires
        ascending(ks),
        ks.len() == vs.len(),
        0 <= p <= ks.len(),
        forall|j: int| 0 <= j < p ==> text_less(#[trigger] ks[j], k),
        forall|j: int| p <= j < ks.len() ==> text_less(k, #[trigger] ks[j]),
    ensures
        ascending(ks.insert(p, k)),
        map_of(ks.insert(p, k), vs.insert(p, v)) == map_of(ks, vs).insert(k, v),
{
    let ks2 = ks.insert(p, k);
    let vs2 = vs.insert(p, v);
    assert forall|i: int, j: int| 0 <= i < j < ks2.len() implies text_less(
        #[trigger] ks2[i],
        #[trigger] ks2[j],
    ) by {
        if j < p {
            assert(ks2[i] == ks[i] && ks2[j] == ks[j]);
        } else if j == p {
            assert(ks2[i] == ks[i]);
        } else if i < p {
            assert(ks2[i] == ks[i] && ks2[j] == ks[j - 1]);
            lemma_text_less_transitive(ks[i], k, ks[j - 1]);
        } else if i == p {
            assert(ks2[j] == ks[j - 1]);
        } else {
            assert(ks2[i] == ks[i - 1] && ks2[j] == ks[j - 1]);
        }
    }
    lemma_text_less_irreflexive(k);
    assert(!ks.contains(k)) by {
        if ks.contains(k) {
            let j = choose|j: int| 0 <= j < ks.len() && ks[j] == k;
            if j < p {
                assert(text_less(ks[j], k));
            } else {
                assert(text_less(k, ks[j]));
            }
        }
    }
    let m1 = map_of(ks2, vs2);
    let m2 = map_of(ks, vs).insert(k, v);
    assert forall|x: Seq<char>| m1.contains_key(x) <==> m2.contains_key(x) by {
        if ks2.contains(x) {
            let j = choose|j: int| 0 <= j < ks2.len() && ks2[j] == x;
            if j < p {
                assert(ks[j] == x);
            } else if j > p {
                assert(ks[j - 1] == x);
            }
        }
        if ks.contains(x) {
            let j = choose|j: int| 0 <= j < ks.len() && ks[j] == x;
            if j < p {
                assert(ks2[j] == x);
            } else {
                assert(ks2[j + 1] == x);
            }
        }
        if x == k {
            assert(ks2[p] == k);
        }
    }
    assert forall|x: Seq<char>| m1.contains_key(x) implies m1[x] == m2[x] by {
        if x == k {
            lemma_lookup(ks2, vs2, p);
        } else {
            let j = choose|j: int| 0 <= j < ks.len() && ks[j] == x;
            lemma_lookup(ks, vs, j);
            if j < p {
                assert(ks2[j] == x);
                lemma_lookup(ks2, vs2, j);
            } else {
                assert(ks2[j + 1] == x);
                lemma_lookup(ks2, vs2, j + 1);
            }
        }
    }
    assert(m1 =~= m2);
}

proof fn lemma_update_at<V>(ks: Seq<Seq<char>>, vs: Seq<V>, p: int, v: V)
    requires
        ascending(ks),
        ks.len() == vs.len(),
        0 <= p < ks.len(),
    ensures
        map_of(ks, vs.update(p, v)) == map_of(ks, vs).insert(ks[p], v),
{
    let vs2 = vs.update(p, v);
    let m1 = map_of(ks, vs2);
    let m2 = map_of(ks, vs).insert(ks[p], v);
    assert(ks.contains(ks[p]));
    assert forall|x: Seq<char>| m1.contains_key(x) implies m1[x] == m2[x] by {
        let j = choose|j: int| 0 <= j < ks.len() && ks[j] == x;
        lemma_lookup(ks, vs, j);
        lemma_lookup(ks, vs2, j);
        lemma_ascending_distinct(ks);
    }
    assert(m1 =~= m2);
}

proof fn lemma_remove_at<V>(ks: Seq<Seq<char>>, vs: Seq<V>, p: int)
    requires
        ascending(ks),
        ks.len() == vs.len(),
        0 <= p < ks.len(),
    ensures
        ascending(ks.remove(p)),
        map_of(ks.remove(p), vs.remove(p)) == map_of(ks, vs).remove(ks[p]),
{
    let ks2 = ks.remove(p);
    let vs2 = vs.remove(p);
    lemma_ascending_distinct(ks);
    assert forall|i: int, j: int| 0 <= i < j < ks2.len() implies text_less(
        #[trigger] ks2[i],
        #[trigger] ks2[j],
    ) by {
        if j < p {
            assert(ks2[i] == ks[i] && ks2[j] == ks[j]);
        } else if i < p {
            assert(ks2[i] == ks[i] && ks2[j] == ks[j + 1]);
        } else {
            assert(ks2[i] == ks[i + 1] && ks2[j] == ks[j + 1]);
        }
    }
    let m1 = map_of(ks2, vs2);
    let m2 = map_of(ks, vs).remove(ks[p]);
    assert forall|x: Seq<char>| m1.contains_key(x) <==> m2.contains_key(x) by {
        if ks2.contains(x) {
            let j = choose|j: int| 0 <= j < ks2.len() && ks2[j] == x;
            if j < p {
                assert(ks[j] == x);
            } else {
                assert(ks[j + 1] == x);
            }
        }
        if ks.contains(x) && x != ks[p] {
            let j = choose|j: int| 0 <= j < ks.len() && ks[j] == x;
            if j < p {
                assert(ks2[j] == x);
            } else {
                assert(ks2[j - 1] == x);
            }
        }
    }
    assert forall|x: Seq<char>| m1.contains_key(x) implies m1[x] == m2[x] by {
        let j = choose|j: int| 0 <= j < ks2.len() && ks2[j] == x;
        lemma_lookup(ks2, vs2, j);
        if j < p {
            lemma_lookup(ks, vs, j);
        } else {
            lemma_lookup(ks, vs, j + 1);
        }
    }
    assert(m1 =~= m2);
}

impl<V> SortedTextMap<V> {
    /// The keys' texts, in stored (ascending) order.
    pub closed spec fn key_list(&self) -> Seq<Seq<char>> {
        self.keys@.map_values(|k: String| k@)
    }

    #[verifier::type_invariant]
    spec fn well_formed(&self) -> bool {
        &&& self.keys.len() == self.values.len()
        &&& ascending(self.key_list())
    }

    /// Where `key` is, or where it would go: every key before the returned
    /// position is smaller than `key`.
    fn locate(&self, key: &str) -> (res: (usize, bool))
        ensures
            res.0 <= self.key_list().len(),
            forall|j: int| 0 <= j < res.0 ==> text_less(#[trigger] self.key_list()[j], key@),
            res.1 ==> res.0 < self.key_list().len() && self.key_list()[res.0 as int] == key@,
            !res.1 ==> forall|j: int|
                res.0 <= j < self.key_list().len() ==> text_less(key@, #[trigger] self.key_list()[j]),
    {
        proof {
            use_type_invariant(self);
        }
        let n = self.keys.len();
        let mut i: usize = 0;
        while i < n
            invariant
                n == self.keys.len(),
                n == self.key_list().len(),
                i <= n,
                ascending(self.key_list()),
                forall|j: int| 0 <= j < i ==> text_less(#[trigger] self.key_list()[j], key@),
            decreases n - i,
        {
            let ghost ks = self.key_list();
            assert(ks[i as int] == self.keys@[i as int]@);
            match text_order(self.keys[i].as_str(), key) {
                TextOrder::Before => {
                    i = i + 1;
                },
                TextOrder::Same => {
                    return (i, true);
                },
                TextOrder::After => {
                    assert forall|j: int| i <= j < ks.len() implies text_less(
                        key@,
                        #[trigger] ks[j],
                    ) by {
                        if j > i {
                            assert(text_less(ks[i as int], ks[j]));
                            lemma_text_less_transitive(key@, ks[i as int], ks[j]);
                        }
                    }
                    return (i, false);
                },
            }
        }
        (i, false)
    }
}

impl<V> View for SortedTextMap<V> {
    type V = Map<Seq<char>, V>;

    closed spec fn view(&self) -> Map<Seq<char>, V> {
        map_of(self.key_list(), self.values@)
    }
}

impl<V> SortedTextMap<V> {
    /// An empty map.
    pub fn new() -> (res: Self)
        ensures
            res@ == Map::<Seq<char>, V>::empty(),
            res.key_list() == Seq::<Seq<char>>::empty(),
    {
        let res = SortedTextMap { keys: Vec::new(), values: Vec::new() };
        assert(res.key_list() =~= Seq::<Seq<char>>::empty());
        assert(res@ =~= Map::<Seq<char>, V>::empty());
        res
    }

    /// The number of entries.
    pub fn len(&self) -> (res: usize)
        ensures
            res == self@.len(),
            res == self.key_list().len(),
    {
        proof {
            use_type_invariant(self);
            lemma_dom_len(self.key_list(), self.values@);
        }
        self.keys.len()
    }

    /// Whether the map has no entries.
    pub fn is_empty(&self) -> (res: bool)
        ensures
            res == (self@ == Map::<Seq<char>, V>::empty()),
    {
        proof {
            use_type_invariant(self);
            lemma_dom_len(self.key_list(), self.values@);
            if self.keys.len() > 0 {
                lemma_lookup(self.key_list(), self.values@, 0);
            } else {
                assert(self@ =~= Map::<Seq<char>, V>::empty());
            }
        }
        self.keys.len() == 0
    }

    /// Whether `key` has an entry.
    pub fn contains_key(&self, key: &str) -> (res: bool)
        ensures
            res == self@.contains_key(key@),
    {
        proof {
            use_type_invariant(self);
        }
        let (p, found) = self.locate(key);
        proof {
            if found {
                lemma_lookup(self.key_list(), self.values@, p as int);
            } else {
                lemma_ascending_distinct(self.key_list());
                if self.key_list().contains(key@) {
                    let j = choose|j: int|
                        0 <= j < self.key_list().len() && self.key_list()[j] == key@;
                    lemma_text_less_irreflexive(key@);
                    if j < p {
                        assert(text_less(self.key_list()[j], key@));
                    } else {
                        assert(text_less(key@, self.key_list()[j]));
                    }
                }
            }
        }
        found
    }

    /// The value stored under `key`, if any.
    pub fn get(&self, key: &str) -> (res: Option<&V>)
        ensures
            res is Some <==> self@.contains_key(key@),
            res matches Some(v) ==> *v == self@[key@],
    {
        proof {
            use_type_invariant(self);
        }
        let present = self.contains_key(key);
        if present {
            let (p, found) = self.locate(key);
            proof {
                if !found {
                    let j = choose|j: int|
                        0 <= j < self.key_list().len() && self.key_list()[j] == key@;
                    lemma_text_less_irreflexive(key@);
                    if j < p {
                        assert(text_less(self.key_list()[j], key@));
                    } else {
                        assert(text_less(key@, self.key_list()[j]));
                    }
                }
                lemma_lookup(self.key_list(), self.values@, p as int);
            }
            Some(&self.values[p])
        } else {
            None
        }
    }

    /// Stores `value` under `key`, replacing what was there.
    pub fn insert(&mut self, key: String, value: V)
        ensures
            final(self)@ == old(self)@.insert(key@, value),
    {
        proof {
            use_type_invariant(&*self);
        }
        let (p, found) = self.locate(key.as_str());
        let mut taken = SortedTextMap::new();
        std::mem::swap(&mut taken, self);
        let SortedTextMap { keys: mut ks, values: mut vs } = taken;
        let ghost ks0 = ks@.map_values(|k: String| k@);
        let ghost vs0 = vs@;
        if found {
            vs.set(p, value);
            proof {
                lemma_update_at(ks0, vs0, p as int, value);
                assert(vs@ == vs0.update(p as int, value));
            }
        } else {
            let ghost kv = key@;
            ks.insert(p, key);
            vs.insert(p, value);
            proof {
                assert(ks@.map_values(|k: String| k@) =~= ks0.insert(p as int, kv));
                lemma_insert_at(ks0, vs0, p as int, kv, value);
            }
        }
        *self = SortedTextMap { keys: ks, values: vs };
    }

    /// Removes the entry for `key`; tells whether there was one.
    pub fn remove(&mut self, key: &str) -> (res: bool)
        ensures
            res == old(self)@.contains_key(key@),
            final(self)@ == old(self)@.remove(key@),
    {
        proof {
            use_type_invariant(&*self);
        }
        let present = self.contains_key(key);
        if !present {
            assert(self@.remove(key@) =~= self@);
            return false;
        }
        let (p, found) = self.locate(key);
        proof {
            if !found {
                let j = choose|j: int| 0 <= j < self.key_list().len() && self.key_list()[j] == key@;
                lemma_text_less_irreflexive(key@);
                if j < p {
                    assert(text_less(self.key_list()[j], key@));
                } else {
                    assert(text_less(key@, self.key_list()[j]));
                }
            }
        }
        let mut taken = SortedTextMap::new();
        std::mem::swap(&mut taken, self);
        let SortedTextMap { keys: mut ks, values: mut vs } = taken;
        let ghost ks0 = ks@.map_values(|k: String| k@);
        let ghost vs0 = vs@;
        ks.remove(p);
        vs.remove(p);
        proof {
            assert(ks@.map_values(|k: String| k@) =~= ks0.remove(p as int));
            lemma_remove_at(ks0, vs0, p as int);
        }
        *self = SortedTextMap { keys: ks, values: vs };
        true
    }

    /// Removes every entry.
    pub fn clear(&mut self)
        ensures
            final(self)@ == Map::<Seq<char>, V>::empty(),
    {
        *self = SortedTextMap::new();
    }

    /// The keys in ascending order.
    pub fn keys(&self) -> (res: &Vec<String>)
        ensures
            res@.map_values(|k: String| k@) == self.key_list(),
            ascending(self.key_list()),
            self.key_list().len() == self@.len(),
            self.key_list().to_set() == self@.dom(),
    {
        proof {
            use_type_invariant(self);
            lemma_dom_len(self.key_list(), self.values@);
        }
        &self.keys
    }

    /// The values, in the order of their keys.
    pub fn values(&self) -> (res: &Vec<V>)
        ensures
            res.len() == self.key_list().len(),
            forall|i: int|
                0 <= i < res.len() ==> self@.contains_key(#[trigger] self.key_list()[i])
                    && self@[self.key_list()[i]] == res@[i],
    {
        proof {
            use_type_invariant(self);
            assert forall|i: int| 0 <= i < self.values.len() implies self@.contains_key(
                #[trigger] self.key_list()[i],
            ) && self@[self.key_list()[i]] == self.values@[i] by {
                lemma_lookup(self.key_list(), self.values@, i);
            }
        }
        &self.values
    }
}

} // verus!
