//! A small association list: a vector of key/value pairs whose keys are
//! pairwise distinct, seen as a finite map.
use vstd::prelude::*;

verus! {

/// A key that can be compared with another key and copied, both by its view.
pub trait MapKey: View + Sized {
    fn same_key(&self, other: &Self) -> (b: bool)
        ensures
            b == (self@ == other@),
    ;

    fn copy_key(&self) -> (k: Self)
        ensures
            k@ == self@,
    ;
}

/// The map that a sequence of pairs stands for: a later pair wins.
pub open spec fn map_of<K: View, V: View>(s: Seq<(K, V)>) -> Map<K::V, V::V>
    decreases s.len(),
{
    if s.len() == 0 {
        Map::empty()
    } else {
        map_of(s.drop_last()).insert(s.last().0@, s.last().1@)
    }
}

/// No two pairs carry the same key.
pub open spec fn keys_distinct<K: View, V>(s: Seq<(K, V)>) -> bool {
    forall|i: int, j: int| 0 <= i < j < s.len() ==> s[i].0@ != s[j].0@
}

pub proof fn lemma_map_of_dom<K: View, V: View>(s: Seq<(K, V)>, k: K::V)
    ensures
        map_of(s).dom().contains(k) <==> exists|i: int| 0 <= i < s.len() && s[i].0@ == k,
    decreases s.len(),
{
    if s.len() > 0 {
        lemma_map_of_dom(s.drop_last(), k);
        if map_of(s.drop_last()).dom().contains(k) {
            let i = choose|i: int| 0 <= i < s.drop_last().len() && s.drop_last()[i].0@ == k;
            assert(s[i].0@ == k);
        }
        if exists|i: int| 0 <= i < s.len() && s[i].0@ == k {
            let i = choose|i: int| 0 <= i < s.len() && s[i].0@ == k;
            if i < s.len() - 1 {
                assert(s.drop_last()[i].0@ == k);
            }
        }
    }
}

pub proof fn lemma_map_of_index<K: View, V: View>(s: Seq<(K, V)>, i: int)
    requires
        keys_distinct(s),
        0 <= i < s.len(),
    ensures
        map_of(s).dom().contains(s[i].0@),
        map_of(s)[s[i].0@] == s[i].1@,
    decreases s.len(),
{
    if i < s.len() - 1 {
        let t = s.drop_last();
        assert(t[i] == s[i]);
        assert(keys_distinct(t));
        lemma_map_of_index(t, i);
        assert(s.last().0@ != s[i].0@);
    }
}

pub proof fn lemma_map_of_len<K: View, V: View>(s: Seq<(K, V)>)
    requires
        keys_distinct(s),
    ensures
        map_of(s).dom().finite(),
        map_of(s).dom().len() == s.len(),
    decreases s.len(),
{
    if s.len() > 0 {
        let t = s.drop_last();
        assert(keys_distinct(t));
        lemma_map_of_len(t);
        lemma_map_of_dom(t, s.last().0@);
        if map_of(t).dom().contains(s.last().0@) {
            let i = choose|i: int| 0 <= i < t.len() && t[i].0@ == s.last().0@;
            assert(s[i].0@ == s[s.len() - 1].0@);
        }
    }
}

/// Two maps are equal once they agree on every key of a sequence of pairs.
pub proof fn lemma_map_of_ext<K: View, V: View>(s: Seq<(K, V)>, m: Map<K::V, V::V>)
    requires
        keys_distinct(s),
        forall|k: K::V| m.dom().contains(k) <==> exists|i: int| 0 <= i < s.len() && s[i].0@ == k,
        forall|i: int| 0 <= i < s.len() ==> m[#[trigger] s[i].0@] == s[i].1@,
    ensures
        map_of(s) == m,
{
    assert forall|k: K::V| map_of(s).dom().contains(k) <==> m.dom().contains(k) by {
        lemma_map_of_dom(s, k);
    }
    assert forall|k: K::V| map_of(s).dom().contains(k) implies map_of(s)[k] == m[k] by {
        lemma_map_of_dom(s, k);
        let i = choose|i: int| 0 <= i < s.len() && s[i].0@ == k;
        lemma_map_of_index(s, i);
    }
    assert(map_of(s) =~= m);
}

/// A vector of pairs with distinct keys, seen as a finite map.
pub struct AssocMap<K, V> {
    pub(crate) entries: Vec<(K, V)>,
}

impl<K: MapKey, V: View> AssocMap<K, V> {
    pub closed spec fn wf(&self) -> bool {
        keys_distinct(self.entries@)
    }

    pub closed spec fn map(&self) -> Map<K::V, V::V> {
        map_of(self.entries@)
    }

    /// The pairs in the order they are kept.
    pub closed spec fn pairs(&self) -> Seq<(K, V)> {
        self.entries@
    }

    pub fn new() -> (m: Self)
        ensures
            m.wf(),
            m.map() == Map::<K::V, V::V>::empty(),
            m.pairs().len() == 0,
    {
        AssocMap { entries: Vec::new() }
    }

    pub fn len(&self) -> (n: usize)
        requires
            self.wf(),
        ensures
            n == self.map().dom().len(),
            n == self.pairs().len(),
    {
        proof {
            lemma_map_of_len(self.entries@);
        }
        self.entries.len()
    }

    /// Index of the pair with key `k`, if any.
    pub fn find(&self, k: &K) -> (r: Option<usize>)
        requires
            self.wf(),
        ensures
            r matches Some(i) ==> i < self.pairs().len() && self.pairs()[i as int].0@ == k@,
            r is None <==> !self.map().dom().contains(k@),
    {
        let mut i: usize = 0;
        while i < self.entries.len()
            invariant
                i <= self.entries@.len(),
                forall|j: int| 0 <= j < i ==> self.entries@[j].0@ != k@,
            decreases self.entries@.len() - i,
        {
            if self.entries[i].0.same_key(k) {
                proof {
                    lemma_map_of_dom(self.entries@, k@);
                }
                return Some(i);
            }
            i = i + 1;
        }
        proof {
            lemma_map_of_dom(self.entries@, k@);
        }
        None
    }

    pub fn contains_key(&self, k: &K) -> (b: bool)
        requires
            self.wf(),
        ensures
            b == self.map().dom().contains(k@),
    {
        self.find(k).is_some()
    }

    pub fn get(&self, k: &K) -> (r: Option<&V>)
        requires
            self.wf(),
        ensures
            r is Some <==> self.map().dom().contains(k@),
            r matches Some(v) ==> v@ == self.map()[k@],
    {
        match self.find(k) {
            Some(i) => {
                proof {
                    lemma_map_of_index(self.entries@, i as int);
                }
                Some(&self.entries[i].1)
            },
            None => None,
        }
    }

    /// Insert or replace the value of `k`; an existing key keeps its place.
    pub fn insert(&mut self, k: K, v: V)
        requires
            old(self).wf(),
        ensures
            final(self).wf(),
            final(self).map() == old(self).map().insert(k@, v@),
            old(self).map().dom().contains(k@) ==> final(self).pairs().len() == old(self).pairs().len(),
            !old(self).map().dom().contains(k@) ==> final(self).pairs().len() == old(self).pairs().len() + 1,
    {
        let ghost s0 = self.entries@;
        let ghost kv = k@;
        let ghost vv = v@;
        match self.find(&k) {
            Some(i) => {
                self.entries.set(i, (k, v));
                proof {
                    let s1 = self.entries@;
                    assert(keys_distinct(s1)) by {
                        assert forall|a: int, b: int| 0 <= a < b < s1.len() implies s1[a].0@ != s1[b].0@ by {
                            if a != i && b != i {
                                assert(s1[a] == s0[a] && s1[b] == s0[b]);
                            }
                        }
                    }
                    let m = map_of(s0).insert(kv, vv);
                    assert forall|key: K::V| m.dom().contains(key) <==> exists|j: int| 0 <= j < s1.len() && s1[j].0@ == key by {
                        lemma_map_of_dom(s0, key);
                        if m.dom().contains(key) && key != kv {
                            let j = choose|j: int| 0 <= j < s0.len() && s0[j].0@ == key;
                            assert(s1[j].0@ == key);
                        }
                        if key == kv {
                            assert(s1[i as int].0@ == key);
                        }
                        if exists|j: int| 0 <= j < s1.len() && s1[j].0@ == key {
                            let j = choose|j: int| 0 <= j < s1.len() && s1[j].0@ == key;
                            if j != i {
                                assert(s0[j].0@ == key);
                            }
                        }
                    }
                    assert forall|j: int| 0 <= j < s1.len() implies m[#[trigger] s1[j].0@] == s1[j].1@ by {
                        if j != i {
                            assert(s1[j] == s0[j]);
                            lemma_map_of_index(s0, j);
                        }
                    }
                    lemma_map_of_ext(s1, m);
                }
            },
            None => {
                self.entries.push((k, v));
                proof {
                    let s1 = self.entries@;
                    assert(s1.drop_last() == s0);
                    lemma_map_of_dom(s0, kv);
                    assert(keys_distinct(s1)) by {
                        assert forall|a: int, b: int| 0 <= a < b < s1.len() implies s1[a].0@ != s1[b].0@ by {
                            if b == s1.len() - 1 {
                                assert(s0[a].0@ == s1[a].0@);
                            } else {
                                assert(s1[a] == s0[a] && s1[b] == s0[b]);
                            }
                        }
                    }
                }
            },
        }
    }

    /// Remove the pair with key `k`, if any, and return its value.
    pub fn remove(&mut self, k: &K) -> (r: Option<V>)
        requires
            old(self).wf(),
        ensures
            final(self).wf(),
            final(self).map() == old(self).map().remove(k@),
            r is Some <==> old(self).map().dom().contains(k@),
            r matches Some(v) ==> v@ == old(self).map()[k@],
    {
        let ghost s0 = self.entries@;
        match self.find(k) {
            Some(i) => {
                proof {
                    lemma_map_of_index(s0, i as int);
                }
                let (_key, v) = self.entries.remove(i);
                proof {
                    let s1 = self.entries@;
                    assert(s1 == s0.remove(i as int));
                    assert(keys_distinct(s1)) by {
                        assert forall|a: int, b: int| 0 <= a < b < s1.len() implies s1[a].0@ != s1[b].0@ by {
                            let a0 = if a < i { a } else { a + 1 };
                            let b0 = if b < i { b } else { b + 1 };
                            assert(s1[a] == s0[a0] && s1[b] == s0[b0]);
                        }
                    }
                    let m = map_of(s0).remove(k@);
                    assert forall|key: K::V| m.dom().contains(key) <==> exists|j: int| 0 <= j < s1.len() && s1[j].0@ == key by {
                        lemma_map_of_dom(s0, key);
                        if m.dom().contains(key) {
                            let j = choose|j: int| 0 <= j < s0.len() && s0[j].0@ == key;
                            assert(j != i);
                            let j1 = if j < i { j } else { j - 1 };
                            assert(s1[j1] == s0[j]);
                        }
                        if exists|j: int| 0 <= j < s1.len() && s1[j].0@ == key {
                            let j = choose|j: int| 0 <= j < s1.len() && s1[j].0@ == key;
                            let j0 = if j < i { j } else { j + 1 };
                            assert(s1[j] == s0[j0]);
                            assert(j0 != i);
                        }
                    }
                    assert forall|j: int| 0 <= j < s1.len() implies m[#[trigger] s1[j].0@] == s1[j].1@ by {
                        let j0 = if j < i { j } else { j + 1 };
                        assert(s1[j] == s0[j0]);
                        lemma_map_of_index(s0, j0);
                    }
                    lemma_map_of_ext(s1, m);
                }
                Some(v)
            },
            None => {
                proof {
                    assert(map_of(s0).remove(k@) =~= map_of(s0));
                }
                None
            },
        }
    }

    /// The keys, each once.
    pub fn keys(&self) -> (ks: Vec<K>)
        requires
            self.wf(),
        ensures
            ks@.len() == self.map().dom().len(),
            forall|i: int| 0 <= i < ks@.len() ==> self.map().dom().contains(#[trigger] ks@[i]@),
            forall|k: K::V| self.map().dom().contains(k) ==> exists|i: int| 0 <= i < ks@.len() && ks@[i]@ == k,
            forall|i: int, j: int| 0 <= i < j < ks@.len() ==> ks@[i]@ != ks@[j]@,
    {
        let mut ks: Vec<K> = Vec::new();
        let mut i: usize = 0;
        while i < self.entries.len()
            invariant
                i <= self.entries@.len(),
                keys_distinct(self.entries@),
                ks@.len() == i,
                forall|j: int| 0 <= j < i ==> ks@[j]@ == self.entries@[j].0@,
            decreases self.entries@.len() - i,
        {
            let k = self.entries[i].0.copy_key();
            ks.push(k);
            i = i + 1;
        }
        proof {
            lemma_map_of_len(self.entries@);
            assert forall|j: int| 0 <= j < ks@.len() implies self.map().dom().contains(#[trigger] ks@[j]@) by {
                lemma_map_of_dom(self.entries@, ks@[j]@);
            }
            assert forall|k: K::V| self.map().dom().contains(k) implies exists|j: int| 0 <= j < ks@.len() && ks@[j]@ == k by {
                lemma_map_of_dom(self.entries@, k);
                let j = choose|j: int| 0 <= j < self.entries@.len() && self.entries@[j].0@ == k;
                assert(ks@[j]@ == k);
            }
        }
        ks
    }

    pub fn clear(&mut self)
        ensures
            final(self).wf(),
            final(self).map() == Map::<K::V, V::V>::empty(),
            final(self).pairs().len() == 0,
    {
        self.entries.clear();
    }
}

} // verus!
