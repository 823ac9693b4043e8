//! Loading of scene chunks a few at a time: chunks are registered with a
//! colour, wait in a queue, and are started while fewer than the limit are
//! still loading.
//!
//! The engine's chunk instances and colours are opaque to the handler, which
//! keeps them (`I` and `C`) and decides when each chunk starts.
use vstd::prelude::*;
use crate::assoc::AssocMap;
use crate::chunk_manager::ChunkPosition;
use crate::chunk_controller::{pos_views, no_dups, queue_contains};

verus! {

/// One registered chunk.
pub struct HandlerChunk<C, I> {
    pub chunk_x: i32,
    pub chunk_y: i32,
    pub biome_color: C,
    pub is_fully_loaded: bool,
    /// The engine's instance, once the chunk has started loading.
    pub chunk_instance: Option<I>,
}

impl<C, I> View for HandlerChunk<C, I> {
    type V = HandlerChunk<C, I>;

    open spec fn view(&self) -> HandlerChunk<C, I> {
        *self
    }
}

/// A chunk that has an instance but has not finished loading.
pub open spec fn is_active_load<C, I>(c: HandlerChunk<C, I>) -> bool {
    !c.is_fully_loaded && c.chunk_instance is Some
}

/// The chunks that are still loading.
pub open spec fn active_loads<C, I>(m: Map<(i32, i32), HandlerChunk<C, I>>) -> Set<(i32, i32)> {
    m.dom().filter(|k: (i32, i32)| is_active_load(m[k]))
}

/// How many queued chunks a pass starts: the free slots below the limit, or
/// all of them when fewer are queued.
pub open spec fn start_count(limit: usize, active: nat, pending: nat) -> nat {
    let slots: nat = if active < limit { (limit - active) as nat } else { 0 };
    if slots < pending { slots } else { pending }
}

/// A pass never starts more chunks than are queued, and never lifts the
/// number of loads in progress above the limit.
pub proof fn lemma_start_within_limit(limit: usize, active: nat, pending: nat)
    ensures
        start_count(limit, active, pending) <= pending,
        active < limit ==> active + start_count(limit, active, pending) <= limit,
        active >= limit ==> start_count(limit, active, pending) == 0,
{
}

/// A pass fills every free slot it can: with `active` loads running below
/// the limit, it starts the smaller of the free slots (`limit - active`)
/// and the number queued.
pub proof fn lemma_start_fills_free_slots(limit: usize, active: nat, pending: nat)
    ensures
        active < limit && limit - active <= pending ==> start_count(limit, active, pending) == limit - active,
        active < limit && pending <= limit - active ==> start_count(limit, active, pending) == pending,
{
}

/// The chunks at a fixed number of loads at a time.
pub struct ChunkHandler<C, I> {
    chunks: AssocMap<ChunkPosition, HandlerChunk<C, I>>,
    max_concurrent_loads: usize,
    pending_loads: Vec<ChunkPosition>,
}

impl<C, I> ChunkHandler<C, I> {
    /// Every queued chunk is registered, and queued once.
    pub closed spec fn wf(&self) -> bool {
        &&& self.chunks.wf()
        &&& no_dups(pos_views(self.pending_loads@))
        &&& forall|i: int| 0 <= i < self.pending_loads@.len() ==> self.chunks.map().dom().contains(#[trigger] self.pending_loads@[i]@)
    }

    /// The registered chunks by coordinates.
    pub closed spec fn chunks(&self) -> Map<(i32, i32), HandlerChunk<C, I>> {
        self.chunks.map()
    }

    /// The chunks waiting to start, first to start first.
    pub closed spec fn pending(&self) -> Seq<(i32, i32)> {
        pos_views(self.pending_loads@)
    }

    pub closed spec fn max_concurrent(&self) -> usize {
        self.max_concurrent_loads
    }

    /// Every chunk waiting to start is registered, and waits once.
    pub proof fn lemma_pending_registered(&self)
        requires
            self.wf(),
        ensures
            forall|i: int| 0 <= i < self.pending().len() ==> self.chunks().dom().contains(#[trigger] self.pending()[i]),
            no_dups(self.pending()),
    {
        assert forall|i: int| 0 <= i < self.pending().len() implies self.chunks().dom().contains(#[trigger] self.pending()[i]) by {
            assert(self.pending()[i] == self.pending_loads@[i]@);
        }
    }

    /// A handler without chunks that runs at most three loads at a time.
    pub fn new() -> (h: Self)
        ensures
            h.wf(),
            h.chunks() == Map::<(i32, i32), HandlerChunk<C, I>>::empty(),
            h.pending() == Seq::<(i32, i32)>::empty(),
            h.max_concurrent() == 3,
    {
        let h = ChunkHandler { chunks: AssocMap::new(), max_concurrent_loads: 3, pending_loads: Vec::new() };
        proof {
            assert(pos_views(h.pending_loads@) =~= Seq::empty());
        }
        h
    }

    /// Registers chunk (`chunk_x`, `chunk_y`) with its colour and queues it;
    /// a chunk that is already registered is left as it is.
    pub fn load_chunk(&mut self, chunk_x: i32, chunk_y: i32, biome_color: C)
        requires
            old(self).wf(),
        ensures
            final(self).wf(),
            final(self).max_concurrent() == old(self).max_concurrent(),
            old(self).chunks().dom().contains((chunk_x, chunk_y)) ==>
                final(self).chunks() == old(self).chunks() && final(self).pending() == old(self).pending(),
            !old(self).chunks().dom().contains((chunk_x, chunk_y)) ==> {
                &&& final(self).pending() == old(self).pending().push((chunk_x, chunk_y))
                &&& final(self).chunks() == old(self).chunks().insert((chunk_x, chunk_y), HandlerChunk {
                    chunk_x,
                    chunk_y,
                    biome_color,
                    is_fully_loaded: false,
                    chunk_instance: None,
                })
            },
    {
        let key = ChunkPosition { x: chunk_x, z: chunk_y };
        if self.chunks.contains_key(&key) {
            return;
        }
        let ghost p0 = self.pending_loads@;
        let queued = queue_contains(&self.pending_loads, &key);
        proof {
            // A queued chunk is registered, and this one is not.
            if queued {
                let j = choose|j: int| 0 <= j < pos_views(p0).len() && pos_views(p0)[j] == key@;
                assert(self.chunks.map().dom().contains(p0[j]@));
            }
        }
        if !queued {
            self.pending_loads.push(key);
        }
        self.chunks.insert(key, HandlerChunk {
            chunk_x,
            chunk_y,
            biome_color,
            is_fully_loaded: false,
            chunk_instance: None,
        });
        proof {
            assert(pos_views(self.pending_loads@) =~= pos_views(p0).push(key@));
            assert forall|a: int, b: int| 0 <= a < b < pos_views(self.pending_loads@).len() implies
                pos_views(self.pending_loads@)[a] != pos_views(self.pending_loads@)[b] by {
                if b == p0.len() {
                    assert(old(self).chunks.map().dom().contains(p0[a]@));
                    assert(pos_views(self.pending_loads@)[a] == p0[a]@);
                } else {
                    assert(pos_views(p0)[a] == pos_views(self.pending_loads@)[a]);
                    assert(pos_views(p0)[b] == pos_views(self.pending_loads@)[b]);
                }
            }
        }
    }

    /// Unregisters chunk (`chunk_x`, `chunk_y`) and takes it out of the
    /// queue; returns its instance, if it had one, for freeing.
    pub fn unload_chunk(&mut self, chunk_x: i32, chunk_y: i32) -> (freed: Option<I>)
        requires
            old(self).wf(),
        ensures
            final(self).wf(),
            final(self).max_concurrent() == old(self).max_concurrent(),
            final(self).chunks() == old(self).chunks().remove((chunk_x, chunk_y)),
            !old(self).pending().contains((chunk_x, chunk_y)) ==> final(self).pending() == old(self).pending(),
            old(self).pending().contains((chunk_x, chunk_y)) ==> exists|j: int|
                0 <= j < old(self).pending().len() && old(self).pending()[j] == (chunk_x, chunk_y)
                && final(self).pending() == old(self).pending().remove(j),
            freed == (if old(self).chunks().dom().contains((chunk_x, chunk_y)) {
                old(self).chunks()[(chunk_x, chunk_y)].chunk_instance
            } else {
                None
            }),
    {
        let key = ChunkPosition { x: chunk_x, z: chunk_y };
        let ghost p0 = self.pending_loads@;
        let mut i: usize = 0;
        while i < self.pending_loads.len() && !(self.pending_loads[i].x == chunk_x && self.pending_loads[i].z == chunk_y)
            invariant
                self.pending_loads@ == p0,
                key@ == (chunk_x, chunk_y),
                i <= p0.len(),
                forall|j: int| 0 <= j < i ==> p0[j]@ != key@,
            decreases p0.len() - i,
        {
            i = i + 1;
        }
        if i < self.pending_loads.len() {
            self.pending_loads.remove(i);
            proof {
                assert(pos_views(p0)[i as int] == key@);
                assert(pos_views(self.pending_loads@) =~= pos_views(p0).remove(i as int));
            }
        } else {
            proof {
                assert(!pos_views(p0).contains(key@)) by {
                    if pos_views(p0).contains(key@) {
                        let j = choose|j: int| 0 <= j < pos_views(p0).len() && pos_views(p0)[j] == key@;
                        assert(p0[j]@ == key@);
                    }
                }
            }
        }
        let freed = match self.chunks.remove(&key) {
            Some(c) => c.chunk_instance,
            None => None,
        };
        proof {
            let q = pos_views(self.pending_loads@);
            assert forall|a: int| 0 <= a < self.pending_loads@.len() implies
                self.chunks.map().dom().contains(#[trigger] self.pending_loads@[a]@) by {
                assert(q[a] == self.pending_loads@[a]@);
                if i < p0.len() {
                    let a0 = if a < i { a } else { a + 1 };
                    assert(q[a] == pos_views(p0)[a0]);
                    assert(pos_views(p0)[a0] != pos_views(p0)[i as int] || a0 == i);
                    assert(old(self).chunks.map().dom().contains(p0[a0]@));
                } else {
                    assert(old(self).chunks.map().dom().contains(p0[a]@));
                }
            }
            assert forall|a: int, b: int| 0 <= a < b < q.len() implies q[a] != q[b] by {
                if i < p0.len() {
                    let a0 = if a < i { a } else { a + 1 };
                    let b0 = if b < i { b } else { b + 1 };
                    assert(q[a] == pos_views(p0)[a0] && q[b] == pos_views(p0)[b0]);
                } else {
                    assert(q[a] == pos_views(p0)[a] && q[b] == pos_views(p0)[b]);
                }
            }
        }
        freed
    }

    /// Starts as many queued chunks, first queued first, as there are free
    /// slots below the limit of concurrent loads; returns them. The caller
    /// makes each one's instance and hands it to `start_chunk_load`.
    pub fn process_pending_loads(&mut self) -> (started: Vec<ChunkPosition>)
        requires
            old(self).wf(),
        ensures
            final(self).wf(),
            final(self).max_concurrent() == old(self).max_concurrent(),
            final(self).chunks() == old(self).chunks(),
            ({
                let n = start_count(old(self).max_concurrent(), active_loads(old(self).chunks()).len(), old(self).pending().len());
                &&& pos_views(started@) == old(self).pending().take(n as int)
                &&& final(self).pending() == old(self).pending().skip(n as int)
            }),
            ({
                let active = active_loads(old(self).chunks()).len();
                let limit = old(self).max_concurrent();
                let queued = old(self).pending().len();
                &&& active < limit && limit - active <= queued ==> started@.len() == limit - active
                &&& active < limit && queued <= limit - active ==> started@.len() == queued
                &&& active >= limit ==> started@.len() == 0
            }),
    {
        let ghost m = self.chunks.map();
        let keys = self.chunks.keys();
        let mut active: usize = 0;
        let ghost mut counted: Set<(i32, i32)> = Set::empty();
        let mut i: usize = 0;
        while i < keys.len()
            invariant
                self.wf(),
                self.chunks.map() == m,
                self.max_concurrent_loads == old(self).max_concurrent_loads,
                i <= keys@.len(),
                keys@.len() == m.dom().len(),
                forall|a: int| 0 <= a < keys@.len() ==> m.dom().contains(#[trigger] keys@[a]@),
                forall|a: int, b: int| 0 <= a < b < keys@.len() ==> keys@[a]@ != keys@[b]@,
                counted.finite(),
                active == counted.len(),
                active <= i,
                counted == Set::new(|k: (i32, i32)| exists|a: int| 0 <= a < i && keys@[a]@ == k && is_active_load(m[k])),
            decreases keys@.len() - i,
        {
            let key = keys[i];
            let is_active = match self.chunks.get(&key) {
                Some(c) => !c.is_fully_loaded && c.chunk_instance.is_some(),
                None => false,
            };
            proof {
                assert(m.dom().contains(key@));
                assert(is_active == is_active_load(m[key@]));
                assert(!counted.contains(key@)) by {
                    if counted.contains(key@) {
                        let a = choose|a: int| 0 <= a < i && keys@[a]@ == key@ && is_active_load(m[key@]);
                        assert(keys@[a]@ != keys@[i as int]@);
                    }
                }
            }
            if is_active {
                active = active + 1;
                proof {
                    counted = counted.insert(key@);
                }
            }
            proof {
                let ni = i + 1;
                assert(counted =~= Set::new(|k: (i32, i32)| exists|a: int| 0 <= a < ni && keys@[a]@ == k && is_active_load(m[k]))) by {
                    assert forall|k: (i32, i32)| counted.contains(k) <==> exists|a: int| 0 <= a < ni && keys@[a]@ == k && is_active_load(m[k]) by {
                        if exists|a: int| 0 <= a < ni && keys@[a]@ == k && is_active_load(m[k]) {
                            let a = choose|a: int| 0 <= a < ni && keys@[a]@ == k && is_active_load(m[k]);
                            if a < i {
                                assert(exists|a2: int| 0 <= a2 < i && keys@[a2]@ == k && is_active_load(m[k]));
                            }
                        }
                        if counted.contains(k) && k != key@ {
                            let a = choose|a: int| 0 <= a < i && keys@[a]@ == k && is_active_load(m[k]);
                            assert(0 <= a < ni);
                        }
                        if k == key@ && is_active {
                            assert(keys@[i as int]@ == k);
                        }
                    }
                }
            }
            i = i + 1;
        }
        proof {
            assert(counted =~= active_loads(m)) by {
                assert forall|k: (i32, i32)| counted.contains(k) <==> active_loads(m).contains(k) by {
                    if active_loads(m).contains(k) {
                        lemma_keys_cover(m, keys@, k);
                    }
                }
            }
        }
        let slots: usize = if active < self.max_concurrent_loads { self.max_concurrent_loads - active } else { 0 };
        let ghost p0 = pos_views(self.pending_loads@);
        let mut started: Vec<ChunkPosition> = Vec::new();
        let mut n: usize = 0;
        while n < slots && self.pending_loads.len() > 0
            invariant
                self.chunks.wf(),
                self.chunks.map() == m,
                self.max_concurrent_loads == old(self).max_concurrent_loads,
                n <= slots,
                n <= p0.len(),
                no_dups(p0),
                forall|k: (i32, i32)| p0.contains(k) ==> m.dom().contains(k),
                pos_views(self.pending_loads@) == p0.skip(n as int),
                pos_views(started@) == p0.take(n as int),
            decreases self.pending_loads@.len(),
        {
            let ghost q_before = self.pending_loads@;
            let ghost started_before = pos_views(started@);
            proof {
                assert(pos_views(q_before) == p0.skip(n as int));
                assert(pos_views(q_before)[0] == q_before[0]@);
            }
            let k = self.pending_loads.remove(0);
            started.push(k);
            proof {
                assert forall|j: int| 0 <= j < pos_views(self.pending_loads@).len() implies
                    #[trigger] pos_views(self.pending_loads@)[j] == p0.skip(n + 1)[j] by {
                    assert(self.pending_loads@[j] == q_before[j + 1]);
                    assert(pos_views(q_before)[j + 1] == p0[n + 1 + j]);
                }
                assert(pos_views(self.pending_loads@) =~= p0.skip(n + 1));
                assert(k@ == p0[n as int]);
                assert(pos_views(started@) =~= started_before.push(k@));
                assert(pos_views(started@) =~= p0.take(n + 1));
            }
            n = n + 1;
        }
        proof {
            if self.pending_loads.len() == 0 {
                assert(pos_views(self.pending_loads@).len() == 0);
            }
            let q = pos_views(self.pending_loads@);
            assert forall|a: int| 0 <= a < self.pending_loads@.len() implies
                self.chunks.map().dom().contains(#[trigger] self.pending_loads@[a]@) by {
                assert(q[a] == self.pending_loads@[a]@);
                assert(q[a] == p0[a + n]);
                assert(p0.contains(p0[a + n]));
            }
            assert forall|a: int, b: int| 0 <= a < b < q.len() implies q[a] != q[b] by {
                assert(q[a] == p0[a + n] && q[b] == p0[b + n]);
            }
        }
        started
    }

    /// Records the instance made for chunk (`chunk_x`, `chunk_y`), which is
    /// then loaded; returns false, keeping nothing, for an unregistered chunk.
    pub fn start_chunk_load(&mut self, chunk_x: i32, chunk_y: i32, instance: I) -> (found: bool)
        requires
            old(self).wf(),
        ensures
            final(self).wf(),
            final(self).max_concurrent() == old(self).max_concurrent(),
            final(self).pending() == old(self).pending(),
            found == old(self).chunks().dom().contains((chunk_x, chunk_y)),
            found ==> final(self).chunks() == old(self).chunks().insert((chunk_x, chunk_y), HandlerChunk {
                chunk_instance: Some(instance),
                is_fully_loaded: true,
                ..old(self).chunks()[(chunk_x, chunk_y)]
            }),
            !found ==> final(self).chunks() == old(self).chunks(),
    {
        let key = ChunkPosition { x: chunk_x, z: chunk_y };
        match self.chunks.remove(&key) {
            Some(c) => {
                self.chunks.insert(key, HandlerChunk {
                    chunk_x: c.chunk_x,
                    chunk_y: c.chunk_y,
                    biome_color: c.biome_color,
                    is_fully_loaded: true,
                    chunk_instance: Some(instance),
                });
                proof {
                    assert(self.chunks.map() =~= old(self).chunks().insert(key@, HandlerChunk {
                        chunk_instance: Some(instance),
                        is_fully_loaded: true,
                        ..old(self).chunks()[key@]
                    }));
                    assert forall|a: int| 0 <= a < self.pending_loads@.len() implies
                        self.chunks.map().dom().contains(#[trigger] self.pending_loads@[a]@) by {
                        assert(old(self).chunks.map().dom().contains(self.pending_loads@[a]@));
                    }
                }
                true
            },
            None => false,
        }
    }

    /// The colour chunk (`chunk_x`, `chunk_y`) was registered with.
    pub fn chunk_color(&self, chunk_x: i32, chunk_y: i32) -> (c: Option<&C>)
        requires
            self.wf(),
        ensures
            c is Some <==> self.chunks().dom().contains((chunk_x, chunk_y)),
            c matches Some(col) ==> *col == self.chunks()[(chunk_x, chunk_y)].biome_color,
    {
        match self.chunks.get(&ChunkPosition { x: chunk_x, z: chunk_y }) {
            Some(c) => Some(&c.biome_color),
            None => None,
        }
    }

    /// The instance of chunk (`chunk_x`, `chunk_y`), if it has started.
    pub fn get_chunk_at_position(&self, chunk_x: i32, chunk_y: i32) -> (inst: Option<&I>)
        requires
            self.wf(),
        ensures
            inst is Some <==> self.chunks().dom().contains((chunk_x, chunk_y))
                && self.chunks()[(chunk_x, chunk_y)].chunk_instance is Some,
            inst matches Some(x) ==> self.chunks()[(chunk_x, chunk_y)].chunk_instance == Some(*x),
    {
        match self.chunks.get(&ChunkPosition { x: chunk_x, z: chunk_y }) {
            Some(c) => match &c.chunk_instance {
                Some(x) => Some(x),
                None => None,
            },
            None => None,
        }
    }

    /// The number of registered chunks.
    pub fn get_loaded_chunk_count(&self) -> (n: i32)
        requires
            self.wf(),
        ensures
            n == self.chunks().dom().len() as i32,
    {
        self.chunks.len() as i32
    }

    /// The number of chunks waiting to start.
    pub fn get_pending_load_count(&self) -> (n: i32)
        requires
            self.wf(),
        ensures
            n == self.pending().len() as i32,
    {
        self.pending_loads.len() as i32
    }
}

/// Keys that cover a map's domain contain each of its keys.
proof fn lemma_keys_cover<C, I>(m: Map<(i32, i32), HandlerChunk<C, I>>, keys: Seq<ChunkPosition>, k: (i32, i32))
    requires
        m.dom().contains(k),
        forall|k2: (i32, i32)| m.dom().contains(k2) ==> exists|a: int| 0 <= a < keys.len() && keys[a]@ == k2,
    ensures
        exists|a: int| 0 <= a < keys.len() && keys[a]@ == k,
{
}

} // verus!