//! Chunk life cycle: which chunks are loading, generating or ready, the
//! requests that follow from a player's position, and the chunk data cache.
//!
//! Loading from disk and generation run outside the library; the manager
//! decides what to ask for and takes their results back.
use vstd::prelude::*;
use crate::assoc::{AssocMap, MapKey};
use crate::chunk_storage::{ChunkCache, ChunkData, ChunkDataView, lru_index_of, lru_shape};

verus! {

/// Coordinates of a chunk on the chunk grid.
#[derive(Clone, Copy, Debug, PartialEq, Eq, Hash, Structural)]
pub struct ChunkPosition {
    pub x: i32,
    pub z: i32,
}

impl View for ChunkPosition {
    type V = (i32, i32);

    open spec fn view(&self) -> (i32, i32) {
        (self.x, self.z)
    }
}

impl MapKey for ChunkPosition {
    fn same_key(&self, other: &Self) -> (b: bool) {
        self.x == other.x && self.z == other.z
    }

    fn copy_key(&self) -> (k: Self) {
        *self
    }
}

/// Where a chunk stands in its life cycle.
#[derive(Clone, Copy, Debug, PartialEq, Eq, Structural)]
pub enum ChunkGenState {
    Unknown,
    /// Queued for loading from storage.
    Loading,
    /// Queued for generation.
    Generating,
    /// Data is available since the given time, in milliseconds.
    Ready(u64),
}

impl View for ChunkGenState {
    type V = ChunkGenState;

    open spec fn view(&self) -> ChunkGenState {
        *self
    }
}

/// What a background load or generation task reports back.
pub enum ChunkResult {
    Loaded(ChunkPosition, ChunkData),
    LoadFailed(ChunkPosition),
    Generated(ChunkPosition, ChunkData),
    GenerationFailed(ChunkPosition, String),
    LogMessage(String),
}

/// Milliseconds a ready chunk outside the view stays tracked.
pub const UNLOAD_AFTER_MS: u64 = 10000;

/// The smallest and largest render distance.
pub const MIN_RENDER_DISTANCE: i32 = 1;
pub const MAX_RENDER_DISTANCE: i32 = 32;

/// A state for which nothing more needs to be requested.
pub open spec fn is_busy(st: Option<ChunkGenState>) -> bool {
    match st {
        Some(ChunkGenState::Loading) | Some(ChunkGenState::Generating) | Some(ChunkGenState::Ready(_)) => true,
        _ => false,
    }
}

pub open spec fn state_at(m: Map<(i32, i32), ChunkGenState>, k: (i32, i32)) -> Option<ChunkGenState> {
    if m.dom().contains(k) {
        Some(m[k])
    } else {
        None
    }
}

/// The chunks within `rd` of the player's chunk, in both directions.
pub open spec fn in_square(k: (i32, i32), px: int, pz: int, rd: int) -> bool {
    px - rd <= k.0 <= px + rd && pz - rd <= k.1 <= pz + rd
}

/// A state that lets an untracked chunk be dropped.
pub open spec fn is_stale(st: ChunkGenState, now: u64) -> bool {
    match st {
        ChunkGenState::Unknown => true,
        ChunkGenState::Ready(t) => now > t + UNLOAD_AFTER_MS,
        _ => false,
    }
}

/// Lexicographic order of chunk coordinates, x first.
pub open spec fn lex_lt(a: (i32, i32), b: (i32, i32)) -> bool {
    a.0 < b.0 || (a.0 == b.0 && a.1 < b.1)
}

/// The states after every chunk of the square has been requested.
pub open spec fn requested_states(m: Map<(i32, i32), ChunkGenState>, px: int, pz: int, rd: int) -> Map<(i32, i32), ChunkGenState> {
    Map::new(
        |k: (i32, i32)| m.dom().contains(k) || in_square(k, px, pz, rd),
        |k: (i32, i32)|
            if in_square(k, px, pz, rd) && !is_busy(state_at(m, k)) {
                ChunkGenState::Loading
            } else {
                m[k]
            },
    )
}

/// The states after stale chunks outside the square have been dropped.
pub open spec fn pruned_states(m: Map<(i32, i32), ChunkGenState>, px: int, pz: int, rd: int, now: u64) -> Map<(i32, i32), ChunkGenState> {
    Map::new(
        |k: (i32, i32)| m.dom().contains(k) && (in_square(k, px, pz, rd) || !is_stale(m[k], now)),
        |k: (i32, i32)| m[k],
    )
}

/// What an update around the player's chunk (`px`, `pz`) with render
/// distance `rd` does: every chunk of the square that was not loading,
/// generating or ready is requested, in increasing (x, z) order, and then
/// stale chunks outside the square are dropped.
pub open spec fn update_outcome(
    s0: Map<(i32, i32), ChunkGenState>,
    px: int,
    pz: int,
    rd: int,
    now: u64,
    s1: Map<(i32, i32), ChunkGenState>,
    loads: Seq<ChunkPosition>,
) -> bool {
    &&& s1 == pruned_states(requested_states(s0, px, pz, rd), px, pz, rd, now)
    &&& forall|i: int| 0 <= i < loads.len() ==> in_square(#[trigger] loads[i]@, px, pz, rd) && !is_busy(state_at(s0, loads[i]@))
    &&& forall|k: (i32, i32)| in_square(k, px, pz, rd) && !is_busy(state_at(s0, k)) ==> exists|i: int| 0 <= i < loads.len() && loads[i]@ == k
    &&& forall|i: int, j: int| 0 <= i < j < loads.len() ==> lex_lt(loads[i]@, loads[j]@)
}

/// After an update, every chunk of the square around the player is
/// loading, generating or ready.
pub proof fn lemma_update_covers_square(s0: Map<(i32, i32), ChunkGenState>, px: int, pz: int, rd: int, now: u64)
    ensures
        forall|k: (i32, i32)| #[trigger] in_square(k, px, pz, rd) ==>
            is_busy(state_at(pruned_states(requested_states(s0, px, pz, rd), px, pz, rd, now), k)),
{
}

/// A second update around the same chunk, with the same render distance,
/// requests nothing more, whatever time it runs at.
pub proof fn lemma_update_requests_once(
    s0: Map<(i32, i32), ChunkGenState>,
    px: int,
    pz: int,
    rd: int,
    now1: u64,
    now2: u64,
    s1: Map<(i32, i32), ChunkGenState>,
    s2: Map<(i32, i32), ChunkGenState>,
    loads1: Seq<ChunkPosition>,
    loads2: Seq<ChunkPosition>,
)
    requires
        update_outcome(s0, px, pz, rd, now1, s1, loads1),
        update_outcome(s1, px, pz, rd, now2, s2, loads2),
    ensures
        loads2.len() == 0,
{
    lemma_update_covers_square(s0, px, pz, rd, now1);
    if loads2.len() > 0 {
        assert(in_square(loads2[0]@, px, pz, rd));
    }
}

/// The primary biome of each sample: the first of its three ids.
pub open spec fn primary_biomes(s: Seq<[u8; 3]>) -> Seq<i32> {
    Seq::new(s.len(), |i: int| s[i]@[0] as i32)
}

/// Chunk `k` comes before column `cx`, row `cz`, in (x, z) order.
pub open spec fn before(k: (i32, i32), cx: int, cz: int) -> bool {
    k.0 < cx || (k.0 == cx && k.1 < cz)
}

/// Key `k` is among the first `n` keys.
pub open spec fn key_seen(ks: Seq<ChunkPosition>, n: int, k: (i32, i32)) -> bool {
    exists|j: int| 0 <= j < n && ks[j]@ == k
}

/// Tracks the state of every chunk and keeps their data.
pub struct ChunkManager {
    states: AssocMap<ChunkPosition, ChunkGenState>,
    cache: ChunkCache,
    render_distance: i32,
    chunk_size: u32,
}

impl ChunkManager {
    pub closed spec fn wf(&self) -> bool {
        &&& self.states.wf()
        &&& self.cache.wf()
        &&& MIN_RENDER_DISTANCE <= self.render_distance <= MAX_RENDER_DISTANCE
    }

    /// The state of every tracked chunk.
    pub closed spec fn states(&self) -> Map<(i32, i32), ChunkGenState> {
        self.states.map()
    }

    /// The cached chunk data, most recently used first.
    pub closed spec fn cached(&self) -> Seq<((i32, i32), ChunkDataView)> {
        self.cache.entries()
    }

    pub closed spec fn cache_capacity(&self) -> nat {
        self.cache.capacity()
    }

    /// A well-formed manager's render distance lies in 1..=32.
    pub proof fn lemma_render_distance_bounds(&self)
        requires
            self.wf(),
        ensures
            MIN_RENDER_DISTANCE <= self.render_distance_spec() <= MAX_RENDER_DISTANCE,
    {
    }

    /// A well-formed manager caches each chunk at most once, within the
    /// cache's capacity.
    pub proof fn lemma_cache_shape(&self)
        requires
            self.wf(),
        ensures
            lru_shape(self.cached(), self.cache_capacity()),
    {
        self.cache.lemma_shape();
    }

    pub closed spec fn render_distance_spec(&self) -> i32 {
        self.render_distance
    }

    pub closed spec fn chunk_size_spec(&self) -> u32 {
        self.chunk_size
    }

    /// A manager that tracks nothing yet, with a render distance of 4.
    pub fn new(chunk_size: u32, cache_limit: usize) -> (m: Self)
        ensures
            m.wf(),
            m.states() == Map::<(i32, i32), ChunkGenState>::empty(),
            m.cached().len() == 0,
            m.cache_capacity() == (if cache_limit == 0 { 1 } else { cache_limit }),
            m.render_distance_spec() == 4,
            m.chunk_size_spec() == chunk_size,
    {
        ChunkManager {
            states: AssocMap::new(),
            cache: ChunkCache::new(cache_limit),
            render_distance: 4,
            chunk_size,
        }
    }

    /// Whether the data of chunk (x, z) is available.
    pub fn is_chunk_ready(&self, x: i32, z: i32) -> (b: bool)
        requires
            self.wf(),
        ensures
            b == (state_at(self.states(), (x, z)) matches Some(ChunkGenState::Ready(_))),
    {
        let pos = ChunkPosition { x, z };
        match self.states.get(&pos) {
            Some(ChunkGenState::Ready(_)) => true,
            _ => false,
        }
    }

    /// The state of chunk (x, z) as a number: -1 untracked, 0 unknown,
    /// 1 loading, 2 generating, 3 ready.
    pub fn get_chunk_state_at(&self, x: i32, z: i32) -> (code: i32)
        requires
            self.wf(),
        ensures
            code == match state_at(self.states(), (x, z)) {
                None => -1,
                Some(ChunkGenState::Unknown) => 0,
                Some(ChunkGenState::Loading) => 1,
                Some(ChunkGenState::Generating) => 2,
                Some(ChunkGenState::Ready(_)) => 3,
            },
    {
        let pos = ChunkPosition { x, z };
        match self.states.get(&pos) {
            None => -1,
            Some(ChunkGenState::Unknown) => 0,
            Some(ChunkGenState::Loading) => 1,
            Some(ChunkGenState::Generating) => 2,
            Some(ChunkGenState::Ready(_)) => 3,
        }
    }

    /// The number of tracked chunks.
    pub fn get_chunk_count(&self) -> (n: i32)
        requires
            self.wf(),
        ensures
            n == self.states().dom().len() as i32,
    {
        self.states.len() as i32
    }

    pub fn get_render_distance(&self) -> (d: i32)
        ensures
            d == self.render_distance_spec(),
            self.wf() ==> MIN_RENDER_DISTANCE <= d <= MAX_RENDER_DISTANCE,
    {
        self.render_distance
    }

    pub fn get_chunk_size(&self) -> (s: u32)
        ensures
            s == self.chunk_size_spec(),
    {
        self.chunk_size
    }

    /// Sets the render distance, clamped to 1..=32.
    pub fn set_render_distance(&mut self, distance: i32)
        requires
            old(self).wf(),
        ensures
            final(self).wf(),
            final(self).render_distance_spec() == (if distance < MIN_RENDER_DISTANCE {
                MIN_RENDER_DISTANCE
            } else if distance > MAX_RENDER_DISTANCE {
                MAX_RENDER_DISTANCE
            } else {
                distance
            }),
            final(self).states() == old(self).states(),
            final(self).cached() == old(self).cached(),
            final(self).cache_capacity() == old(self).cache_capacity(),
            final(self).chunk_size_spec() == old(self).chunk_size_spec(),
    {
        let d = if distance < MIN_RENDER_DISTANCE {
            MIN_RENDER_DISTANCE
        } else if distance > MAX_RENDER_DISTANCE {
            MAX_RENDER_DISTANCE
        } else {
            distance
        };
        self.render_distance = d;
    }

    /// Marks chunk `pos` as loading unless it is already loading,
    /// generating or ready; returns whether a load must now be queued.
    pub fn ensure_chunk_is_ready(&mut self, pos: ChunkPosition) -> (queue_load: bool)
        requires
            old(self).wf(),
        ensures
            final(self).wf(),
            queue_load == !is_busy(state_at(old(self).states(), pos@)),
            final(self).states() == (if queue_load {
                old(self).states().insert(pos@, ChunkGenState::Loading)
            } else {
                old(self).states()
            }),
            final(self).cached() == old(self).cached(),
            final(self).cache_capacity() == old(self).cache_capacity(),
            final(self).render_distance_spec() == old(self).render_distance_spec(),
            final(self).chunk_size_spec() == old(self).chunk_size_spec(),
    {
        let busy = match self.states.get(&pos) {
            Some(ChunkGenState::Ready(_)) | Some(ChunkGenState::Loading) | Some(ChunkGenState::Generating) => true,
            _ => false,
        };
        if busy {
            false
        } else {
            self.states.insert(pos, ChunkGenState::Loading);
            true
        }
    }

    /// Requests chunk (x, z); returns whether a load must now be queued.
    pub fn get_chunk(&mut self, x: i32, z: i32) -> (queue_load: bool)
        requires
            old(self).wf(),
        ensures
            final(self).wf(),
            queue_load == !is_busy(state_at(old(self).states(), (x, z))),
            final(self).states() == (if queue_load {
                old(self).states().insert((x, z), ChunkGenState::Loading)
            } else {
                old(self).states()
            }),
            final(self).cached() == old(self).cached(),
            final(self).render_distance_spec() == old(self).render_distance_spec(),
            final(self).chunk_size_spec() == old(self).chunk_size_spec(),
    {
        if self.is_chunk_ready(x, z) {
            return false;
        }
        self.ensure_chunk_is_ready(ChunkPosition { x, z })
    }

    /// Takes back the result of a background task; returns the chunk whose
    /// generation must now be queued, if any. Loaded and generated data is
    /// cached and the chunk becomes ready at `now_ms`; a failed load of a
    /// loading chunk turns into generation, any other failure resets the
    /// chunk to unknown.
    pub fn handle_chunk_result(&mut self, result: ChunkResult, now_ms: u64) -> (generate: Option<ChunkPosition>)
        requires
            old(self).wf(),
        ensures
            final(self).wf(),
            final(self).cache_capacity() == old(self).cache_capacity(),
            final(self).render_distance_spec() == old(self).render_distance_spec(),
            final(self).chunk_size_spec() == old(self).chunk_size_spec(),
            match result {
                ChunkResult::Loaded(p, d) | ChunkResult::Generated(p, d) => {
                    &&& generate is None
                    &&& final(self).states() == old(self).states().insert(p@, ChunkGenState::Ready(now_ms))
                    &&& final(self).cached()[0] == (p@, d@)
                    &&& final(self).cached().len() >= 1
                    &&& (lru_index_of(old(self).cached(), p@) >= 0 ==> final(self).cached() == seq![(p@, d@)] + old(self).cached().remove(lru_index_of(old(self).cached(), p@)))
                    &&& (lru_index_of(old(self).cached(), p@) < 0 && old(self).cached().len() < old(self).cache_capacity() ==> final(self).cached() == seq![(p@, d@)] + old(self).cached())
                    &&& (lru_index_of(old(self).cached(), p@) < 0 && old(self).cached().len() >= old(self).cache_capacity() ==> final(self).cached() == seq![(p@, d@)] + old(self).cached().drop_last())
                },
                ChunkResult::LoadFailed(p) => {
                    &&& final(self).cached() == old(self).cached()
                    &&& if state_at(old(self).states(), p@) == Some(ChunkGenState::Loading) {
                        &&& generate == Some(p)
                        &&& final(self).states() == old(self).states().insert(p@, ChunkGenState::Generating)
                    } else {
                        &&& generate is None
                        &&& final(self).states() == old(self).states().insert(p@, ChunkGenState::Unknown)
                    }
                },
                ChunkResult::GenerationFailed(p, _) => {
                    &&& generate is None
                    &&& final(self).cached() == old(self).cached()
                    &&& final(self).states() == old(self).states().insert(p@, ChunkGenState::Unknown)
                },
                ChunkResult::LogMessage(_) => {
                    &&& generate is None
                    &&& final(self).cached() == old(self).cached()
                    &&& final(self).states() == old(self).states()
                },
            },
    {
        match result {
            ChunkResult::Loaded(pos, data) => {
                self.cache.push((pos.x, pos.z), data);
                self.states.insert(pos, ChunkGenState::Ready(now_ms));
                None
            },
            ChunkResult::LoadFailed(pos) => {
                let was_loading = match self.states.get(&pos) {
                    Some(ChunkGenState::Loading) => true,
                    _ => false,
                };
                if was_loading {
                    self.states.insert(pos, ChunkGenState::Generating);
                    Some(pos)
                } else {
                    self.states.insert(pos, ChunkGenState::Unknown);
                    None
                }
            },
            ChunkResult::Generated(pos, data) => {
                self.cache.push((pos.x, pos.z), data);
                self.states.insert(pos, ChunkGenState::Ready(now_ms));
                None
            },
            ChunkResult::GenerationFailed(pos, _err) => {
                self.states.insert(pos, ChunkGenState::Unknown);
                None
            },
            ChunkResult::LogMessage(_msg) => None,
        }
    }

    /// Requests every chunk within the render distance of the player's
    /// chunk, then drops the state of unknown chunks, and of chunks ready for
    /// more than ten seconds, outside that square. Returns the chunks whose
    /// load must now be queued, in increasing order of (x, z).
    pub fn update(&mut self, player_chunk_x: i32, player_chunk_z: i32, now_ms: u64) -> (loads: Vec<ChunkPosition>)
        requires
            old(self).wf(),
            player_chunk_x - old(self).render_distance_spec() >= i32::MIN,
            player_chunk_x + old(self).render_distance_spec() <= i32::MAX,
            player_chunk_z - old(self).render_distance_spec() >= i32::MIN,
            player_chunk_z + old(self).render_distance_spec() <= i32::MAX,
        ensures
            final(self).wf(),
            update_outcome(old(self).states(), player_chunk_x as int, player_chunk_z as int,
                old(self).render_distance_spec() as int, now_ms, final(self).states(), loads@),
            final(self).cached() == old(self).cached(),
            final(self).cache_capacity() == old(self).cache_capacity(),
            final(self).render_distance_spec() == old(self).render_distance_spec(),
            final(self).chunk_size_spec() == old(self).chunk_size_spec(),
    {
        let ghost s0 = self.states.map();
        let ghost c0 = self.cache.entries();
        let ghost cap0 = self.cache.capacity();
        let rd = self.render_distance as i64;
        let px = player_chunk_x as i64;
        let pz = player_chunk_z as i64;
        let ghost gpx = px as int;
        let ghost gpz = pz as int;
        let ghost grd = rd as int;
        let mut loads: Vec<ChunkPosition> = Vec::new();
        let mut x: i64 = px - rd;
        while x <= px + rd
            invariant
                self.wf(),
                self.render_distance as i64 == rd,
                1 <= rd <= 32,
                px == player_chunk_x as i64,
                pz == player_chunk_z as i64,
                gpx == px as int,
                gpz == pz as int,
                grd == rd as int,
                px - rd >= i32::MIN,
                px + rd <= i32::MAX,
                pz - rd >= i32::MIN,
                pz + rd <= i32::MAX,
                px - rd <= x <= px + rd + 1,
                self.cache.entries() == c0,
                self.cache.capacity() == cap0,
                self.chunk_size == old(self).chunk_size,
                self.states.map() == Map::new(
                    |k: (i32, i32)| s0.dom().contains(k) || (in_square(k, gpx, gpz, grd) && k.0 < x),
                    |k: (i32, i32)| if in_square(k, gpx, gpz, grd) && k.0 < x && !is_busy(state_at(s0, k)) { ChunkGenState::Loading } else { s0[k] },
                ),
                forall|i: int| 0 <= i < loads@.len() ==> in_square(#[trigger] loads@[i]@, gpx, gpz, grd) && loads@[i]@.0 < x && !is_busy(state_at(s0, loads@[i]@)),
                forall|k: (i32, i32)| in_square(k, gpx, gpz, grd) && k.0 < x && !is_busy(state_at(s0, k)) ==> exists|i: int| 0 <= i < loads@.len() && loads@[i]@ == k,
                forall|i: int, j: int| 0 <= i < j < loads@.len() ==> lex_lt(loads@[i]@, loads@[j]@),
            decreases px + rd + 1 - x,
        {
            let mut z: i64 = pz - rd;
            proof {
                assert forall|k: (i32, i32)| in_square(k, gpx, gpz, grd) implies (before(k, x as int, z as int) <==> k.0 < x) by {}
                assert(self.states.map() =~= Map::new(
                    |k: (i32, i32)| s0.dom().contains(k) || (in_square(k, gpx, gpz, grd) && before(k, x as int, z as int)),
                    |k: (i32, i32)| if in_square(k, gpx, gpz, grd) && before(k, x as int, z as int) && !is_busy(state_at(s0, k)) { ChunkGenState::Loading } else { s0[k] },
                ));
            }
            while z <= pz + rd
                invariant
                    self.wf(),
                    self.render_distance as i64 == rd,
                    1 <= rd <= 32,
                    px == player_chunk_x as i64,
                    pz == player_chunk_z as i64,
                    gpx == px as int,
                    gpz == pz as int,
                    grd == rd as int,
                    px - rd >= i32::MIN,
                    px + rd <= i32::MAX,
                    pz - rd >= i32::MIN,
                    pz + rd <= i32::MAX,
                    px - rd <= x <= px + rd,
                    pz - rd <= z <= pz + rd + 1,
                    self.cache.entries() == c0,
                    self.cache.capacity() == cap0,
                    self.chunk_size == old(self).chunk_size,
                    self.states.map() == Map::new(
                        |k: (i32, i32)| s0.dom().contains(k) || (in_square(k, gpx, gpz, grd) && before(k, x as int, z as int)),
                        |k: (i32, i32)| if in_square(k, gpx, gpz, grd) && before(k, x as int, z as int) && !is_busy(state_at(s0, k)) { ChunkGenState::Loading } else { s0[k] },
                    ),
                    forall|i: int| 0 <= i < loads@.len() ==> in_square(#[trigger] loads@[i]@, gpx, gpz, grd) && before(loads@[i]@, x as int, z as int) && !is_busy(state_at(s0, loads@[i]@)),
                    forall|k: (i32, i32)| in_square(k, gpx, gpz, grd) && before(k, x as int, z as int) && !is_busy(state_at(s0, k)) ==> exists|i: int| 0 <= i < loads@.len() && loads@[i]@ == k,
                    forall|i: int, j: int| 0 <= i < j < loads@.len() ==> lex_lt(loads@[i]@, loads@[j]@),
                decreases pz + rd + 1 - z,
            {
                let pos = ChunkPosition { x: x as i32, z: z as i32 };
                let ghost prev_states = self.states.map();
                let ghost loads_before = loads@;
                let queued = self.ensure_chunk_is_ready(pos);
                proof {
                    assert(state_at(prev_states, pos@) == state_at(s0, pos@));
                }
                if queued {
                    loads.push(pos);
                }
                proof {
                    let nz = (z + 1) as int;
                    assert forall|k: (i32, i32)| in_square(k, gpx, gpz, grd) && before(k, x as int, nz) && !is_busy(state_at(s0, k)) implies exists|i: int| 0 <= i < loads@.len() && loads@[i]@ == k by {
                        if k == pos@ {
                            assert(loads@[loads@.len() - 1]@ == k);
                        } else {
                            assert(before(k, x as int, z as int));
                            let i = choose|i: int| 0 <= i < loads_before.len() && loads_before[i]@ == k;
                            assert(loads@[i] == loads_before[i]);
                        }
                    }
                    assert(self.states.map() =~= Map::new(
                        |k: (i32, i32)| s0.dom().contains(k) || (in_square(k, gpx, gpz, grd) && before(k, x as int, nz)),
                        |k: (i32, i32)| if in_square(k, gpx, gpz, grd) && before(k, x as int, nz) && !is_busy(state_at(s0, k)) { ChunkGenState::Loading } else { s0[k] },
                    ));
                }
                z = z + 1;
            }
            proof {
                let nx = (x + 1) as int;
                assert forall|k: (i32, i32)| in_square(k, gpx, gpz, grd) implies (before(k, x as int, z as int) <==> k.0 < nx) by {}
                assert forall|k: (i32, i32)| in_square(k, gpx, gpz, grd) && k.0 < nx && !is_busy(state_at(s0, k)) implies exists|i: int| 0 <= i < loads@.len() && loads@[i]@ == k by {
                    assert(before(k, x as int, z as int));
                }
                assert(self.states.map() =~= Map::new(
                    |k: (i32, i32)| s0.dom().contains(k) || (in_square(k, gpx, gpz, grd) && k.0 < nx),
                    |k: (i32, i32)| if in_square(k, gpx, gpz, grd) && k.0 < nx && !is_busy(state_at(s0, k)) { ChunkGenState::Loading } else { s0[k] },
                ));
            }
            x = x + 1;
        }
        let ghost s1 = self.states.map();
        proof {
            assert(s1 =~= requested_states(s0, gpx, gpz, grd));
        }
        let keys = self.states.keys();
        let mut i: usize = 0;
        while i < keys.len()
            invariant
                self.wf(),
                self.render_distance as i64 == rd,
                1 <= rd <= 32,
                px == player_chunk_x as i64,
                pz == player_chunk_z as i64,
                gpx == px as int,
                gpz == pz as int,
                grd == rd as int,
                i <= keys@.len(),
                self.cache.entries() == c0,
                self.cache.capacity() == cap0,
                self.chunk_size == old(self).chunk_size,
                keys@.len() == s1.dom().len(),
                forall|j: int| 0 <= j < keys@.len() ==> s1.dom().contains(#[trigger] keys@[j]@),
                forall|k: (i32, i32)| s1.dom().contains(k) ==> exists|j: int| 0 <= j < keys@.len() && keys@[j]@ == k,
                forall|a: int, b: int| 0 <= a < b < keys@.len() ==> keys@[a]@ != keys@[b]@,
                self.states.map() == Map::new(
                    |k: (i32, i32)| s1.dom().contains(k) && (in_square(k, gpx, gpz, grd) || !is_stale(s1[k], now_ms)
                        || !key_seen(keys@, i as int, k)),
                    |k: (i32, i32)| s1[k],
                ),
            decreases keys@.len() - i,
        {
            let pos = keys[i];
            let ghost prev_states = self.states.map();
            let inside = (pos.x as i64) >= px - rd && (pos.x as i64) <= px + rd && (pos.z as i64) >= pz - rd && (pos.z as i64) <= pz + rd;
            let stale = match self.states.get(&pos) {
                Some(ChunkGenState::Unknown) => true,
                Some(ChunkGenState::Ready(t)) => now_ms > *t && now_ms - *t > UNLOAD_AFTER_MS,
                _ => false,
            };
            proof {
                assert(!key_seen(keys@, i as int, pos@)) by {
                    if key_seen(keys@, i as int, pos@) {
                        let j = choose|j: int| 0 <= j < i && keys@[j]@ == pos@;
                        assert(keys@[j]@ != keys@[i as int]@);
                    }
                }
                assert(prev_states.dom().contains(pos@));
                assert(stale == is_stale(s1[pos@], now_ms));
            }
            if !inside && stale {
                self.states.remove(&pos);
            }
            proof {
                let ni = (i + 1) as int;
                let target = Map::new(
                    |k: (i32, i32)| s1.dom().contains(k) && (in_square(k, gpx, gpz, grd) || !is_stale(s1[k], now_ms)
                        || !key_seen(keys@, ni, k)),
                    |k: (i32, i32)| s1[k],
                );
                assert(inside == in_square(pos@, gpx, gpz, grd));
                assert forall|k: (i32, i32)| #[trigger] key_seen(keys@, ni, k) <==> (key_seen(keys@, i as int, k) || k == pos@) by {
                    if k == pos@ {
                        assert(keys@[i as int]@ == k);
                    }
                    if key_seen(keys@, ni, k) && k != pos@ {
                        let j = choose|j: int| 0 <= j < ni && keys@[j]@ == k;
                        assert(j < i);
                    }
                }
                assert forall|k: (i32, i32)| self.states.map().dom().contains(k) <==> target.dom().contains(k) by {
                    if k != pos@ {
                        assert(key_seen(keys@, ni, k) == key_seen(keys@, i as int, k));
                    }
                }
                assert(self.states.map() =~= target);
            }
            i = i + 1;
        }
        proof {
            assert forall|k: (i32, i32)| s1.dom().contains(k) implies key_seen(keys@, i as int, k) by {}
            assert(self.states.map() =~= pruned_states(s1, gpx, gpz, grd, now_ms));
        }
        loads
    }

    /// Caches data that was written to storage.
    pub fn cache_saved_chunk(&mut self, data: ChunkData)
        requires
            old(self).wf(),
        ensures
            final(self).wf(),
            final(self).states() == old(self).states(),
            final(self).cached()[0] == (data.position, data@),
            final(self).cache_capacity() == old(self).cache_capacity(),
            final(self).render_distance_spec() == old(self).render_distance_spec(),
            final(self).chunk_size_spec() == old(self).chunk_size_spec(),
    {
        let k = data.position;
        self.cache.push(k, data);
    }

    /// The cached data of chunk (x, z) if it is ready; the entry becomes the
    /// most recently used one.
    pub fn get_cached_chunk_data(&mut self, x: i32, z: i32) -> (r: Option<ChunkData>)
        requires
            old(self).wf(),
        ensures
            final(self).wf(),
            final(self).states() == old(self).states(),
            final(self).cache_capacity() == old(self).cache_capacity(),
            final(self).render_distance_spec() == old(self).render_distance_spec(),
            final(self).chunk_size_spec() == old(self).chunk_size_spec(),
            ({
                let s = old(self).cached();
                let i = lru_index_of(s, (x, z));
                if (state_at(old(self).states(), (x, z)) matches Some(ChunkGenState::Ready(_))) && i >= 0 {
                    &&& final(self).cached() == seq![s[i]] + s.remove(i)
                    &&& r matches Some(d) && d@ == s[i].1
                } else {
                    &&& final(self).cached() == s
                    &&& r is None
                }
            }),
    {
        if self.is_chunk_ready(x, z) {
            self.cache.get((x, z))
        } else {
            None
        }
    }

    /// The height samples (as `f32` bit patterns) of a ready, cached chunk,
    /// else nothing.
    pub fn get_chunk_heightmap(&mut self, x: i32, z: i32) -> (h: Vec<u32>)
        requires
            old(self).wf(),
        ensures
            final(self).wf(),
            final(self).states() == old(self).states(),
            final(self).cache_capacity() == old(self).cache_capacity(),
            final(self).render_distance_spec() == old(self).render_distance_spec(),
            final(self).chunk_size_spec() == old(self).chunk_size_spec(),
            ({
                let s = old(self).cached();
                let i = lru_index_of(s, (x, z));
                if (state_at(old(self).states(), (x, z)) matches Some(ChunkGenState::Ready(_))) && i >= 0 {
                    h@ == s[i].1.1
                } else {
                    h@.len() == 0
                }
            }),
    {
        match self.get_cached_chunk_data(x, z) {
            Some(data) => data.heightmap,
            None => Vec::new(),
        }
    }

    /// The primary biome id of each sample of a ready, cached chunk, else
    /// nothing.
    pub fn get_chunk_biomes(&mut self, x: i32, z: i32) -> (b: Vec<i32>)
        requires
            old(self).wf(),
        ensures
            final(self).wf(),
            final(self).states() == old(self).states(),
            final(self).cache_capacity() == old(self).cache_capacity(),
            final(self).render_distance_spec() == old(self).render_distance_spec(),
            final(self).chunk_size_spec() == old(self).chunk_size_spec(),
            ({
                let s = old(self).cached();
                let i = lru_index_of(s, (x, z));
                if (state_at(old(self).states(), (x, z)) matches Some(ChunkGenState::Ready(_))) && i >= 0 {
                    b@ == primary_biomes(s[i].1.2)
                } else {
                    b@.len() == 0
                }
            }),
    {
        match self.get_cached_chunk_data(x, z) {
            Some(data) => {
                let mut out: Vec<i32> = Vec::new();
                let mut i: usize = 0;
                while i < data.biome_indices.len()
                    invariant
                        i <= data.biome_indices@.len(),
                        out@.len() == i,
                        forall|j: int| 0 <= j < i ==> out@[j] == data.biome_indices@[j]@[0] as i32,
                    decreases data.biome_indices@.len() - i,
                {
                    let ids = data.biome_indices[i];
                    out.push(ids[0] as i32);
                    i = i + 1;
                }
                proof {
                    assert(out@ =~= primary_biomes(data.biome_indices@));
                }
                out
            },
            None => Vec::new(),
        }
    }

    /// Applies a chunk size from the configuration; a changed size drops
    /// every chunk state and the cached data, so chunks regenerate.
    pub fn apply_config_updates(&mut self, chunk_size: u32)
        requires
            old(self).wf(),
        ensures
            final(self).wf(),
            final(self).chunk_size_spec() == chunk_size,
            final(self).render_distance_spec() == old(self).render_distance_spec(),
            final(self).cache_capacity() == old(self).cache_capacity(),
            chunk_size == old(self).chunk_size_spec() ==> final(self).states() == old(self).states() && final(self).cached() == old(self).cached(),
            chunk_size != old(self).chunk_size_spec() ==> final(self).states() == Map::<(i32, i32), ChunkGenState>::empty() && final(self).cached().len() == 0,
    {
        let old_size = self.chunk_size;
        self.chunk_size = chunk_size;
        if old_size != chunk_size {
            self.states.clear();
            self.cache.clear();
        }
    }
}

} // verus!
