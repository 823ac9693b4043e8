//! Chunk data and the least-recently-used cache that keeps it in memory.
//!
//! The cache is the `lru` crate's `LruCache`, keyed by chunk coordinates.
//! Height and blend-weight samples are carried as the bit patterns of their
//! `f32` values: the library stores and hands them back, it never computes
//! with them.
use vstd::prelude::*;
use lru::LruCache;
use std::num::NonZeroUsize;

verus! {

/// Data of one generated chunk.
pub struct ChunkData {
    pub position: (i32, i32),
    /// Height samples, as `f32` bit patterns.
    pub heightmap: Vec<u32>,
    /// The three most influential biome ids of each sample.
    pub biome_indices: Vec<[u8; 3]>,
    /// Their blend weights, as `f32` bit patterns.
    pub biome_blend_weights: Vec<[u32; 3]>,
}

/// What a chunk's data is, as plain values.
pub type ChunkDataView = ((i32, i32), Seq<u32>, Seq<[u8; 3]>, Seq<[u32; 3]>);

impl View for ChunkData {
    type V = ChunkDataView;

    open spec fn view(&self) -> ChunkDataView {
        (self.position, self.heightmap@, self.biome_indices@, self.biome_blend_weights@)
    }
}

impl Clone for ChunkData {
    fn clone(&self) -> (c: Self)
        ensures
            c@ == self@,
    {
        let heightmap = self.heightmap.clone();
        let biome_indices = self.biome_indices.clone();
        let biome_blend_weights = self.biome_blend_weights.clone();
        proof {
            assert(heightmap@ =~= self.heightmap@);
            assert forall|i: int| 0 <= i < biome_indices@.len() implies biome_indices@[i] == self.biome_indices@[i] by {
                assert(cloned(self.biome_indices[i], biome_indices[i]));
                assert(biome_indices@[i]@ =~= self.biome_indices@[i]@);
            }
            assert(biome_indices@ =~= self.biome_indices@);
            assert forall|i: int| 0 <= i < biome_blend_weights@.len() implies biome_blend_weights@[i] == self.biome_blend_weights@[i] by {
                assert(cloned(self.biome_blend_weights[i], biome_blend_weights[i]));
                assert(biome_blend_weights@[i]@ =~= self.biome_blend_weights@[i]@);
            }
            assert(biome_blend_weights@ =~= self.biome_blend_weights@);
        }
        ChunkData { position: self.position, heightmap, biome_indices, biome_blend_weights }
    }
}

#[verifier::external_type_specification]
#[verifier::external_body]
#[verifier::reject_recursive_types(K)]
#[verifier::reject_recursive_types(V)]
#[verifier::reject_recursive_types(S)]
pub struct ExLruCache<K, V, S>(LruCache<K, V, S>);

#[verifier::external_type_specification]
#[verifier::external_body]
pub struct ExLruDefaultHasher(lru::DefaultHasher);

/// The entries of an LRU cache of chunk data, most recently used first.
pub uninterp spec fn lru_entries(c: LruCache<(i32, i32), ChunkData>) -> Seq<((i32, i32), ChunkDataView)>;

/// The capacity an LRU cache of chunk data was made with.
pub uninterp spec fn lru_capacity(c: LruCache<(i32, i32), ChunkData>) -> nat;

/// Entries with pairwise distinct keys, no more of them than the capacity.
pub open spec fn lru_shape(s: Seq<((i32, i32), ChunkDataView)>, cap: nat) -> bool {
    &&& s.len() <= cap
    &&& cap > 0
    &&& forall|i: int, j: int| 0 <= i < j < s.len() ==> s[i].0 != s[j].0
}

/// Position of key `k` in the entries, or -1.
pub open spec fn lru_index_of(s: Seq<((i32, i32), ChunkDataView)>, k: (i32, i32)) -> int {
    if exists|i: int| 0 <= i < s.len() && s[i].0 == k {
        choose|i: int| 0 <= i < s.len() && s[i].0 == k
    } else {
        -1
    }
}

/// The data cached for chunk `k`, if any.
pub open spec fn cached_data(s: Seq<((i32, i32), ChunkDataView)>, k: (i32, i32)) -> Option<ChunkDataView> {
    let i = lru_index_of(s, k);
    if i >= 0 {
        Some(s[i].1)
    } else {
        None
    }
}

/// The entries after chunk `k` is used: its entry, if any, moves to the
/// front.
pub open spec fn touched(s: Seq<((i32, i32), ChunkDataView)>, k: (i32, i32)) -> Seq<((i32, i32), ChunkDataView)> {
    let i = lru_index_of(s, k);
    if i >= 0 {
        seq![s[i]] + s.remove(i)
    } else {
        s
    }
}

/// The entries after the chunks `ks` are used, in order.
pub open spec fn touched_all(s: Seq<((i32, i32), ChunkDataView)>, ks: Seq<(i32, i32)>) -> Seq<((i32, i32), ChunkDataView)>
    decreases ks.len(),
{
    if ks.len() == 0 {
        s
    } else {
        touched(touched_all(s, ks.drop_last()), ks.last())
    }
}

/// Moving one entry of a cache with distinct keys to the front keeps the
/// keys distinct and what every key holds.
pub proof fn lemma_move_to_front(s: Seq<((i32, i32), ChunkDataView)>, i: int)
    requires
        0 <= i < s.len(),
        forall|a: int, b: int| 0 <= a < b < s.len() ==> s[a].0 != s[b].0,
    ensures
        ({
            let t = seq![s[i]] + s.remove(i);
            &&& forall|a: int, b: int| 0 <= a < b < t.len() ==> t[a].0 != t[b].0
            &&& forall|k: (i32, i32)| #[trigger] cached_data(t, k) == cached_data(s, k)
        }),
{
    let t = seq![s[i]] + s.remove(i);
    assert forall|a: int| 0 <= a < t.len() implies #[trigger] t[a] == s[if a == 0 { i } else if a - 1 < i { a - 1 } else { a }] by {}
    assert forall|a: int, b: int| 0 <= a < b < t.len() implies t[a].0 != t[b].0 by {
        let a0 = if a == 0 { i } else if a - 1 < i { a - 1 } else { a };
        let b0 = if b == 0 { i } else if b - 1 < i { b - 1 } else { b };
        assert(t[a] == s[a0] && t[b] == s[b0]);
    }
    assert forall|k: (i32, i32)| #[trigger] cached_data(t, k) == cached_data(s, k) by {
        if exists|j: int| 0 <= j < s.len() && s[j].0 == k {
            let j = choose|j: int| 0 <= j < s.len() && s[j].0 == k;
            let tj = if j == i { 0 } else if j < i { j + 1 } else { j };
            assert(t[tj] == s[j]);
            let a = lru_index_of(t, k);
            let a0 = if a == 0 { i } else if a - 1 < i { a - 1 } else { a };
            assert(t[a] == s[a0]);
        } else {
            if exists|a: int| 0 <= a < t.len() && t[a].0 == k {
                let a = choose|a: int| 0 <= a < t.len() && t[a].0 == k;
                let a0 = if a == 0 { i } else if a - 1 < i { a - 1 } else { a };
                assert(t[a] == s[a0]);
            }
        }
    }
}

/// `LruCache::new`: an empty cache that holds at most `cap` entries.
#[verifier::external_body]
fn lru_new(cap: usize) -> (c: LruCache<(i32, i32), ChunkData>)
    requires
        cap > 0,
    ensures
        lru_entries(c) == Seq::<((i32, i32), ChunkDataView)>::empty(),
        lru_capacity(c) == cap,
{
    LruCache::new(NonZeroUsize::new(cap).unwrap())
}

/// `LruCache::push`: puts the entry first; an entry with the same key is
/// replaced and returned, else a full cache evicts and returns its least
/// recently used entry.
#[verifier::external_body]
fn lru_push(c: &mut LruCache<(i32, i32), ChunkData>, k: (i32, i32), v: ChunkData) -> (r: Option<((i32, i32), ChunkData)>)
    requires
        lru_shape(lru_entries(*old(c)), lru_capacity(*old(c))),
    ensures
        ({
            let s = lru_entries(*old(c));
            let i = lru_index_of(s, k);
            let cap = lru_capacity(*old(c));
            &&& lru_capacity(*final(c)) == cap
            &&& if i >= 0 {
                &&& lru_entries(*final(c)) == seq![(k, v@)] + s.remove(i)
                &&& r matches Some(e) && e.0 == k && e.1@ == s[i].1
            } else if s.len() < cap {
                &&& lru_entries(*final(c)) == seq![(k, v@)] + s
                &&& r is None
            } else {
                &&& lru_entries(*final(c)) == seq![(k, v@)] + s.drop_last()
                &&& r matches Some(e) && e.0 == s.last().0 && e.1@ == s.last().1
            }
        }),
{
    c.push(k, v)
}

/// `LruCache::get_mut`, the value cloned: a found entry becomes the most
/// recently used one.
#[verifier::external_body]
fn lru_get_cloned(c: &mut LruCache<(i32, i32), ChunkData>, k: (i32, i32)) -> (r: Option<ChunkData>)
    requires
        lru_shape(lru_entries(*old(c)), lru_capacity(*old(c))),
    ensures
        ({
            let s = lru_entries(*old(c));
            let i = lru_index_of(s, k);
            &&& lru_capacity(*final(c)) == lru_capacity(*old(c))
            &&& if i >= 0 {
                &&& lru_entries(*final(c)) == seq![s[i]] + s.remove(i)
                &&& r matches Some(d) && d@ == s[i].1
            } else {
                &&& lru_entries(*final(c)) == s
                &&& r is None
            }
        }),
{
    c.get_mut(&k).cloned()
}

/// `LruCache::contains`: whether the key has an entry; the order is kept.
#[verifier::external_body]
fn lru_contains(c: &LruCache<(i32, i32), ChunkData>, k: (i32, i32)) -> (b: bool)
    ensures
        b == (lru_index_of(lru_entries(*c), k) >= 0),
{
    c.contains(&k)
}

/// `LruCache::len`: the number of entries.
#[verifier::external_body]
fn lru_len(c: &LruCache<(i32, i32), ChunkData>) -> (n: usize)
    ensures
        n == lru_entries(*c).len(),
{
    c.len()
}

/// `LruCache::clear`: removes every entry.
#[verifier::external_body]
fn lru_clear(c: &mut LruCache<(i32, i32), ChunkData>)
    ensures
        lru_entries(*final(c)) == Seq::<((i32, i32), ChunkDataView)>::empty(),
        lru_capacity(*final(c)) == lru_capacity(*old(c)),
{
    c.clear()
}

/// `LruCache::iter`, keys only: the keys, most recently used first.
#[verifier::external_body]
fn lru_keys(c: &LruCache<(i32, i32), ChunkData>) -> (ks: Vec<(i32, i32)>)
    ensures
        ks@ == lru_entries(*c).map_values(|e: ((i32, i32), ChunkDataView)| e.0),
{
    c.iter().map(|(k, _v)| *k).collect()
}

/// The in-memory cache of chunk data.
pub struct ChunkCache {
    lru: LruCache<(i32, i32), ChunkData>,
}

impl ChunkCache {
    /// The entries, most recently used first.
    pub closed spec fn entries(&self) -> Seq<((i32, i32), ChunkDataView)> {
        lru_entries(self.lru)
    }

    pub closed spec fn capacity(&self) -> nat {
        lru_capacity(self.lru)
    }

    pub closed spec fn wf(&self) -> bool {
        lru_shape(lru_entries(self.lru), lru_capacity(self.lru))
    }

    /// A well-formed cache holds each key at most once, within capacity.
    pub proof fn lemma_shape(&self)
        requires
            self.wf(),
        ensures
            lru_shape(self.entries(), self.capacity()),
    {
    }

    /// The chunk pushed last is cached with the data pushed: a get right
    /// after a push gives back what was pushed.
    pub proof fn lemma_push_then_get(&self, k: (i32, i32), dv: ChunkDataView)
        requires
            self.wf(),
            self.entries().len() > 0,
            self.entries()[0] == (k, dv),
        ensures
            cached_data(self.entries(), k) == Some(dv),
            lru_index_of(self.entries(), k) == 0,
            self.entries().len() <= self.capacity(),
    {
        let s = self.entries();
        assert(s[0].0 == k);
        let i = lru_index_of(s, k);
        assert(s[i].0 == k);
    }

    /// Whether chunk `k` is cached.
    pub open spec fn has(&self, k: (i32, i32)) -> bool {
        lru_index_of(self.entries(), k) >= 0
    }

    /// A cache holding at most `limit` chunks; a limit of zero holds one.
    pub fn new(limit: usize) -> (c: Self)
        ensures
            c.wf(),
            c.entries().len() == 0,
            c.capacity() == (if limit == 0 { 1 } else { limit }),
    {
        let cap = if limit == 0 { 1 } else { limit };
        ChunkCache { lru: lru_new(cap) }
    }

    /// Cache `data` for chunk `k` as the most recently used entry; when the
    /// cache is full and `k` is new, the least recently used entry leaves.
    pub fn push(&mut self, k: (i32, i32), data: ChunkData)
        requires
            old(self).wf(),
        ensures
            final(self).wf(),
            final(self).capacity() == old(self).capacity(),
            final(self).entries()[0] == (k, data@),
            ({
                let s = old(self).entries();
                let i = lru_index_of(s, k);
                if i >= 0 {
                    final(self).entries() == seq![(k, data@)] + s.remove(i)
                } else if s.len() < old(self).capacity() {
                    final(self).entries() == seq![(k, data@)] + s
                } else {
                    final(self).entries() == seq![(k, data@)] + s.drop_last()
                }
            }),
    {
        let ghost s = lru_entries(self.lru);
        let ghost dv = data@;
        let _ = lru_push(&mut self.lru, k, data);
        proof {
            let t = lru_entries(self.lru);
            let i = lru_index_of(s, k);
            if i >= 0 {
                assert(t == seq![(k, dv)] + s.remove(i));
                assert forall|a: int, b: int| 0 <= a < b < t.len() implies t[a].0 != t[b].0 by {
                    if a == 0 {
                        let b0 = if b - 1 < i { b - 1 } else { b };
                        assert(t[b] == s[b0]);
                        assert(s[i].0 == k);
                    } else {
                        let a0 = if a - 1 < i { a - 1 } else { a };
                        let b0 = if b - 1 < i { b - 1 } else { b };
                        assert(t[a] == s[a0] && t[b] == s[b0]);
                    }
                }
            } else {
                assert(!(exists|j: int| 0 <= j < s.len() && s[j].0 == k));
                assert forall|a: int, b: int| 0 <= a < b < t.len() implies t[a].0 != t[b].0 by {
                    assert(t[b] == s[b - 1]);
                    if a > 0 {
                        assert(t[a] == s[a - 1]);
                    }
                }
            }
        }
    }

    /// The data of chunk `k`, which becomes the most recently used entry.
    pub fn get(&mut self, k: (i32, i32)) -> (r: Option<ChunkData>)
        requires
            old(self).wf(),
        ensures
            final(self).wf(),
            final(self).capacity() == old(self).capacity(),
            ({
                let s = old(self).entries();
                let i = lru_index_of(s, k);
                if i >= 0 {
                    &&& final(self).entries() == seq![s[i]] + s.remove(i)
                    &&& r matches Some(d) && d@ == s[i].1
                } else {
                    &&& final(self).entries() == s
                    &&& r is None
                }
            }),
    {
        let ghost s = lru_entries(self.lru);
        let r = lru_get_cloned(&mut self.lru, k);
        proof {
            let t = lru_entries(self.lru);
            let i = lru_index_of(s, k);
            if i >= 0 {
                assert forall|a: int, b: int| 0 <= a < b < t.len() implies t[a].0 != t[b].0 by {
                    if a == 0 {
                        let b0 = if b - 1 < i { b - 1 } else { b };
                        assert(t[b] == s[b0]);
                    } else {
                        let a0 = if a - 1 < i { a - 1 } else { a };
                        let b0 = if b - 1 < i { b - 1 } else { b };
                        assert(t[a] == s[a0] && t[b] == s[b0]);
                    }
                }
            }
        }
        r
    }

    /// Whether chunk `k` is cached; the order of use is kept.
    pub fn contains(&self, k: (i32, i32)) -> (b: bool)
        ensures
            b == self.has(k),
    {
        lru_contains(&self.lru, k)
    }

    /// The number of cached chunks.
    pub fn len(&self) -> (n: usize)
        ensures
            n == self.entries().len(),
    {
        lru_len(&self.lru)
    }

    /// Removes every cached chunk.
    pub fn clear(&mut self)
        requires
            old(self).wf(),
        ensures
            final(self).wf(),
            final(self).entries().len() == 0,
            final(self).capacity() == old(self).capacity(),
    {
        lru_clear(&mut self.lru)
    }

    /// The cached chunk positions, most recently used first.
    pub fn cached_positions(&self) -> (ks: Vec<(i32, i32)>)
        ensures
            ks@.len() == self.entries().len(),
            forall|i: int| 0 <= i < ks@.len() ==> ks@[i] == self.entries()[i].0,
    {
        lru_keys(&self.lru)
    }
}

} // verus!
