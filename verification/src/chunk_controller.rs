//! Mesh bookkeeping for the chunks around the player: which chunks need a
//! mesh, which meshes have left the view, and how many of either are handled
//! per frame.
//!
//! The controller decides; building and freeing the engine's meshes is the
//! caller's, from the positions the controller hands back.
use vstd::prelude::*;
use crate::assoc::AssocMap;
use crate::chunk_manager::{ChunkManager, ChunkPosition, ChunkGenState, state_at, in_square, lex_lt, before, key_seen, update_outcome};
use crate::mesh_geometry::{mesh_lengths_ok, mesh_input_valid};
use crate::chunk_storage::{ChunkData, ChunkDataView, cached_data, lru_index_of, lemma_move_to_front, touched_all};

verus! {

/// The coordinates of a sequence of chunk positions.
pub open spec fn pos_views(s: Seq<ChunkPosition>) -> Seq<(i32, i32)> {
    s.map_values(|p: ChunkPosition| p@)
}

/// No position occurs twice.
pub open spec fn no_dups(s: Seq<(i32, i32)>) -> bool {
    forall|i: int, j: int| 0 <= i < j < s.len() ==> s[i] != s[j]
}

/// The data of chunk `k` is ready according to `states`.
pub open spec fn ready_in(states: Map<(i32, i32), ChunkGenState>, k: (i32, i32)) -> bool {
    state_at(states, k) matches Some(ChunkGenState::Ready(_))
}

/// Chunk `k` lies in the player's square, is ready and has neither a mesh
/// nor a place in the creation queue.
pub open spec fn needs_mesh(states: Map<(i32, i32), ChunkGenState>, v: ChunkControllerView, k: (i32, i32)) -> bool {
    &&& in_square(k, v.player_chunk.0 as int, v.player_chunk.1 as int, v.render_distance as int)
    &&& ready_in(states, k)
    &&& !v.meshes.contains(k)
    &&& !v.creation_queue.contains(k)
}

/// Chunk `k` has a mesh outside the player's square and no place in the
/// removal queue.
pub open spec fn mesh_out_of_view(v: ChunkControllerView, k: (i32, i32)) -> bool {
    &&& v.meshes.contains(k)
    &&& !in_square(k, v.player_chunk.0 as int, v.player_chunk.1 as int, v.render_distance as int)
    &&& !v.removal_queue.contains(k)
}

/// What a visualization update does to view `v`, giving `w`: the ready
/// chunks of the square without a mesh or a place in the creation queue are
/// appended to it in increasing (x, z) order, and the meshes outside the
/// square without a place in the removal queue are appended to that queue,
/// each once; nothing else changes.
pub open spec fn visualization_outcome(states: Map<(i32, i32), ChunkGenState>, v: ChunkControllerView, w: ChunkControllerView) -> bool {
    let added = w.creation_queue.skip(v.creation_queue.len() as int);
    let radded = w.removal_queue.skip(v.removal_queue.len() as int);
    &&& (w == ChunkControllerView { creation_queue: w.creation_queue, removal_queue: w.removal_queue, ..v })
    &&& v.creation_queue.len() <= w.creation_queue.len()
    &&& w.creation_queue.take(v.creation_queue.len() as int) == v.creation_queue
    &&& forall|i: int| 0 <= i < added.len() ==> needs_mesh(states, v, #[trigger] added[i])
    &&& forall|k: (i32, i32)| needs_mesh(states, v, k) ==> added.contains(k)
    &&& forall|i: int, j: int| 0 <= i < j < added.len() ==> lex_lt(added[i], added[j])
    &&& v.removal_queue.len() <= w.removal_queue.len()
    &&& w.removal_queue.take(v.removal_queue.len() as int) == v.removal_queue
    &&& forall|i: int| 0 <= i < radded.len() ==> mesh_out_of_view(v, #[trigger] radded[i])
    &&& forall|k: (i32, i32)| mesh_out_of_view(v, k) ==> radded.contains(k)
    &&& no_dups(radded)
}

/// Updating the visualization twice against the same chunk states queues
/// nothing the second time.
pub proof fn lemma_visualization_settles(states: Map<(i32, i32), ChunkGenState>, v: ChunkControllerView, w: ChunkControllerView, x: ChunkControllerView)
    requires
        visualization_outcome(states, v, w),
        visualization_outcome(states, w, x),
    ensures
        x == w,
{
    let n = v.creation_queue.len() as int;
    let added = w.creation_queue.skip(n);
    let added2 = x.creation_queue.skip(w.creation_queue.len() as int);
    if added2.len() > 0 {
        let k = added2[0];
        assert(needs_mesh(states, w, k));
        assert(needs_mesh(states, v, k)) by {
            if v.creation_queue.contains(k) {
                let j = choose|j: int| 0 <= j < v.creation_queue.len() && v.creation_queue[j] == k;
                assert(w.creation_queue.take(n)[j] == k);
                assert(w.creation_queue[j] == k);
            }
        }
        assert(added.contains(k));
        let j = choose|j: int| 0 <= j < added.len() && added[j] == k;
        assert(w.creation_queue[n + j] == k);
    }
    let m = v.removal_queue.len() as int;
    let radded = w.removal_queue.skip(m);
    let radded2 = x.removal_queue.skip(w.removal_queue.len() as int);
    if radded2.len() > 0 {
        let k = radded2[0];
        assert(mesh_out_of_view(w, k));
        assert(mesh_out_of_view(v, k)) by {
            if v.removal_queue.contains(k) {
                let j = choose|j: int| 0 <= j < v.removal_queue.len() && v.removal_queue[j] == k;
                assert(w.removal_queue.take(m)[j] == k);
                assert(w.removal_queue[j] == k);
            }
        }
        assert(radded.contains(k));
        let j = choose|j: int| 0 <= j < radded.len() && radded[j] == k;
        assert(w.removal_queue[m + j] == k);
    }
    assert(x.creation_queue =~= x.creation_queue.take(w.creation_queue.len() as int));
    assert(x.removal_queue =~= x.removal_queue.take(w.removal_queue.len() as int));
}

/// How many positions a removal pass takes from the queue: the per-frame
/// budget, or all of them when fewer are queued.
pub open spec fn removal_count(v: ChunkControllerView) -> int {
    if v.mesh_updates_per_frame < v.removal_queue.len() {
        v.mesh_updates_per_frame as int
    } else {
        v.removal_queue.len() as int
    }
}

/// The meshes left after the positions `taken` from the removal queue,
/// except those queued for creation, lost theirs.
pub open spec fn meshes_after_removal(m: Set<(i32, i32)>, taken: Seq<(i32, i32)>, creation: Seq<(i32, i32)>) -> Set<(i32, i32)> {
    Set::new(|p: (i32, i32)| m.contains(p) && !(taken.contains(p) && !creation.contains(p)))
}

/// The view after a removal pass.
pub open spec fn view_after_removals(v: ChunkControllerView) -> ChunkControllerView {
    let k = removal_count(v);
    ChunkControllerView {
        removal_queue: v.removal_queue.skip(k),
        meshes: meshes_after_removal(v.meshes, v.removal_queue.take(k), v.creation_queue),
        ..v
    }
}

/// Chunk `k` can get a mesh now: its data is ready, it has no mesh and it is
/// not queued for removal.
pub open spec fn creation_ready(states: Map<(i32, i32), ChunkGenState>, v: ChunkControllerView, k: (i32, i32)) -> bool {
    &&& ready_in(states, k)
    &&& !v.meshes.contains(k)
    &&& !v.removal_queue.contains(k)
}

/// Chunk data makes a mesh of the given chunk size.
pub open spec fn mesh_data_ok(chunk_size: u32, d: Option<ChunkDataView>) -> bool {
    match d {
        Some(d) => mesh_lengths_ok(chunk_size, d.1.len(), d.2.len(), d.3.len()),
        None => false,
    }
}

/// Chunk `k` gets a mesh in a creation pass: it can get one, and its cached
/// data makes one.
pub open spec fn builds_mesh(states: Map<(i32, i32), ChunkGenState>, v: ChunkControllerView, s: Seq<((i32, i32), ChunkDataView)>, k: (i32, i32)) -> bool {
    creation_ready(states, v, k) && mesh_data_ok(v.chunk_size, cached_data(s, k))
}

/// How many positions a creation pass takes from the front of `c`: it
/// stops once `budget` positions that could get a mesh were handled, or the
/// queue is empty.
pub open spec fn creation_count(c: Seq<(i32, i32)>, states: Map<(i32, i32), ChunkGenState>, v: ChunkControllerView, budget: nat) -> nat
    decreases c.len(),
{
    if budget == 0 || c.len() == 0 {
        0
    } else if creation_ready(states, v, c[0]) {
        1 + creation_count(c.drop_first(), states, v, (budget - 1) as nat)
    } else {
        1 + creation_count(c.drop_first(), states, v, budget)
    }
}

/// Whether `p` occurs in `q`.
pub(crate) fn queue_contains(q: &Vec<ChunkPosition>, p: &ChunkPosition) -> (b: bool)
    ensures
        b == pos_views(q@).contains(p@),
{
    let mut i: usize = 0;
    while i < q.len()
        invariant
            i <= q@.len(),
            forall|j: int| 0 <= j < i ==> q@[j]@ != p@,
        decreases q@.len() - i,
    {
        if q[i].x == p.x && q[i].z == p.z {
            proof {
                assert(pos_views(q@)[i as int] == p@);
            }
            return true;
        }
        i = i + 1;
    }
    proof {
        if pos_views(q@).contains(p@) {
            let j = choose|j: int| 0 <= j < pos_views(q@).len() && pos_views(q@)[j] == p@;
            assert(q@[j]@ == p@);
        }
    }
    false
}

/// Everything the controller keeps, seen as plain values.
pub struct ChunkControllerView {
    pub render_distance: i32,
    pub player_chunk: (i32, i32),
    pub needs_update: bool,
    pub chunk_size: u32,
    pub visualization_enabled: bool,
    pub debug_mode: i32,
    pub needs_visual_update: bool,
    pub meshes: Set<(i32, i32)>,
    pub creation_queue: Seq<(i32, i32)>,
    pub removal_queue: Seq<(i32, i32)>,
    pub mesh_updates_per_frame: usize,
}

/// The counts a controller reports.
#[derive(Clone, Copy, Debug, PartialEq, Eq, Structural)]
pub struct ChunkControllerStats {
    pub managed_chunk_states: i32,
    pub render_distance: i32,
    pub visualization_enabled: bool,
    pub visualized_mesh_count: i64,
}

/// What one frame of mesh work asks of the caller.
pub struct MeshQueueWork {
    /// Meshes to free, in the order they were taken from the removal queue.
    pub removed: Vec<ChunkPosition>,
    /// Chunks whose mesh is to be built now, with their data.
    pub built: Vec<(ChunkPosition, ChunkData)>,
}

/// What the first part of a frame asks of the caller.
pub struct FrameStart {
    /// Chunks whose load must be queued, in increasing (x, z) order.
    pub loads: Vec<ChunkPosition>,
    /// Meshes to free.
    pub freed: Vec<ChunkPosition>,
}

/// Decides which chunk meshes exist around the player.
pub struct ChunkController {
    render_distance: i32,
    player_chunk_x: i32,
    player_chunk_z: i32,
    needs_update: bool,
    chunk_size: u32,
    visualization_enabled: bool,
    chunk_meshes: AssocMap<ChunkPosition, bool>,
    debug_mode: i32,
    needs_visual_update: bool,
    mesh_creation_queue: Vec<ChunkPosition>,
    mesh_removal_queue: Vec<ChunkPosition>,
    mesh_updates_per_frame: usize,
}

/// The player's chunk leaves room for the largest render distance on every
/// side.
pub open spec fn chunk_in_bounds(x: int, z: int) -> bool {
    i32::MIN + 32 <= x <= i32::MAX - 32 && i32::MIN + 32 <= z <= i32::MAX - 32
}

impl View for ChunkController {
    type V = ChunkControllerView;

    closed spec fn view(&self) -> ChunkControllerView {
        ChunkControllerView {
            render_distance: self.render_distance,
            player_chunk: (self.player_chunk_x, self.player_chunk_z),
            needs_update: self.needs_update,
            chunk_size: self.chunk_size,
            visualization_enabled: self.visualization_enabled,
            debug_mode: self.debug_mode,
            needs_visual_update: self.needs_visual_update,
            meshes: self.chunk_meshes.map().dom(),
            creation_queue: pos_views(self.mesh_creation_queue@),
            removal_queue: pos_views(self.mesh_removal_queue@),
            mesh_updates_per_frame: self.mesh_updates_per_frame,
        }
    }
}

impl ChunkController {
    /// The render distance lies in 1..=32, the player's chunk leaves room
    /// for it, neither queue holds a position twice, the debug mode is not
    /// negative, and the vertex count of a chunk's grid fits in 32 bits.
    pub closed spec fn wf(&self) -> bool {
        &&& self.chunk_meshes.wf()
        &&& 1 <= self.render_distance <= 32
        &&& chunk_in_bounds(self.player_chunk_x as int, self.player_chunk_z as int)
        &&& no_dups(pos_views(self.mesh_creation_queue@))
        &&& no_dups(pos_views(self.mesh_removal_queue@))
        &&& self.debug_mode >= 0
        &&& self.chunk_size <= 65534
    }

    /// A controller at the origin with render distance 4, chunk size 32 and
    /// four mesh updates per frame, visualizing, with an update pending.
    pub fn new() -> (c: Self)
        ensures
            c.wf(),
            (c@ == ChunkControllerView {
                render_distance: 4,
                player_chunk: (0, 0),
                needs_update: true,
                chunk_size: 32,
                visualization_enabled: true,
                debug_mode: 0,
                needs_visual_update: false,
                meshes: Set::empty(),
                creation_queue: Seq::empty(),
                removal_queue: Seq::empty(),
                mesh_updates_per_frame: 4,
            }),
    {
        let c = ChunkController {
            render_distance: 4,
            player_chunk_x: 0,
            player_chunk_z: 0,
            needs_update: true,
            chunk_size: 32,
            visualization_enabled: true,
            chunk_meshes: AssocMap::new(),
            debug_mode: 0,
            needs_visual_update: false,
            mesh_creation_queue: Vec::new(),
            mesh_removal_queue: Vec::new(),
            mesh_updates_per_frame: 4,
        };
        proof {
            assert(pos_views(c.mesh_creation_queue@) =~= Seq::empty());
            assert(pos_views(c.mesh_removal_queue@) =~= Seq::empty());
        }
        c
    }

    /// Takes the render distance from the chunk manager and the chunk size
    /// and per-frame mesh budget from the terrain settings.
    pub fn ready(&mut self, manager: &ChunkManager, chunk_size: u32, mesh_updates_per_frame: usize)
        requires
            old(self).wf(),
            manager.wf(),
            chunk_size <= 65534,
        ensures
            final(self).wf(),
            (final(self)@ == ChunkControllerView {
                render_distance: manager.render_distance_spec(),
                chunk_size,
                mesh_updates_per_frame,
                ..old(self)@
            }),
    {
        self.render_distance = manager.get_render_distance();
        self.chunk_size = chunk_size;
        self.mesh_updates_per_frame = mesh_updates_per_frame;
    }

    /// Moves the player to chunk (`chunk_x`, `chunk_z`); entering another
    /// chunk than before asks for an update.
    pub fn update_player_position(&mut self, chunk_x: i32, chunk_z: i32)
        requires
            old(self).wf(),
            chunk_in_bounds(chunk_x as int, chunk_z as int),
        ensures
            final(self).wf(),
            (final(self)@ == ChunkControllerView {
                player_chunk: (chunk_x, chunk_z),
                needs_update: old(self)@.needs_update || old(self)@.player_chunk != (chunk_x, chunk_z),
                ..old(self)@
            }),
    {
        let moved = self.player_chunk_x != chunk_x || self.player_chunk_z != chunk_z;
        self.player_chunk_x = chunk_x;
        self.player_chunk_z = chunk_z;
        if moved {
            self.needs_update = true;
        }
    }

    /// Sets the render distance, clamped to 1..=32, here and in the chunk
    /// manager; a change asks for an update.
    pub fn set_render_distance(&mut self, manager: &mut ChunkManager, distance: i32)
        requires
            old(self).wf(),
            old(manager).wf(),
        ensures
            final(self).wf(),
            ({
                let d = if distance < 1 { 1i32 } else if distance > 32 { 32i32 } else { distance };
                if d != old(self)@.render_distance {
                    &&& (final(self)@ == ChunkControllerView { render_distance: d, needs_update: true, ..old(self)@ })
                    &&& final(manager).render_distance_spec() == d
                } else {
                    &&& final(self)@ == old(self)@
                    &&& final(manager).render_distance_spec() == old(manager).render_distance_spec()
                }
            }),
            final(manager).wf(),
            final(manager).states() == old(manager).states(),
            final(manager).cached() == old(manager).cached(),
            final(manager).cache_capacity() == old(manager).cache_capacity(),
            final(manager).chunk_size_spec() == old(manager).chunk_size_spec(),
    {
        let d = if distance < 1 { 1i32 } else if distance > 32 { 32i32 } else { distance };
        if d != self.render_distance {
            self.render_distance = d;
            manager.set_render_distance(d);
            self.needs_update = true;
        }
    }

    /// Turns visualization on or off. Turning it off drops every mesh and
    /// returns their positions for freeing; turning it on asks for an update.
    pub fn set_visualization_enabled(&mut self, enabled: bool) -> (freed: Vec<ChunkPosition>)
        requires
            old(self).wf(),
        ensures
            final(self).wf(),
            enabled == old(self)@.visualization_enabled ==> final(self)@ == old(self)@ && freed@.len() == 0,
            enabled != old(self)@.visualization_enabled && !enabled ==> {
                &&& (final(self)@ == ChunkControllerView { visualization_enabled: false, meshes: Set::empty(), ..old(self)@ })
                &&& pos_views(freed@).to_set() == old(self)@.meshes
                &&& no_dups(pos_views(freed@))
            },
            enabled != old(self)@.visualization_enabled && enabled ==> {
                &&& (final(self)@ == ChunkControllerView { visualization_enabled: true, needs_update: true, ..old(self)@ })
                &&& freed@.len() == 0
            },
    {
        let mut freed: Vec<ChunkPosition> = Vec::new();
        if enabled != self.visualization_enabled {
            self.visualization_enabled = enabled;
            if !enabled {
                freed = self.drain_meshes();
            } else {
                self.needs_update = true;
            }
        }
        freed
    }

    /// Removes every mesh and returns their positions, each once.
    fn drain_meshes(&mut self) -> (freed: Vec<ChunkPosition>)
        requires
            old(self).wf(),
        ensures
            final(self).wf(),
            (final(self)@ == ChunkControllerView { meshes: Set::empty(), ..old(self)@ }),
            pos_views(freed@).to_set() == old(self)@.meshes,
            no_dups(pos_views(freed@)),
    {
        let freed = self.chunk_meshes.keys();
        self.chunk_meshes.clear();
        proof {
            assert(self.chunk_meshes.map().dom() =~= Set::empty());
            assert forall|k: (i32, i32)| pos_views(freed@).to_set().contains(k) <==> old(self)@.meshes.contains(k) by {
                if old(self)@.meshes.contains(k) {
                    let j = choose|j: int| 0 <= j < freed@.len() && freed@[j]@ == k;
                    assert(pos_views(freed@)[j] == k);
                }
                if pos_views(freed@).contains(k) {
                    let j = choose|j: int| 0 <= j < pos_views(freed@).len() && pos_views(freed@)[j] == k;
                    assert(freed@[j]@ == k);
                }
            }
            assert(pos_views(freed@).to_set() =~= old(self)@.meshes);
        }
        freed
    }

    /// The counts of chunk states and meshes, with the manager's render
    /// distance, or the controller's where there is no manager.
    pub fn get_stats(&self, manager: Option<&ChunkManager>) -> (s: ChunkControllerStats)
        requires
            self.wf(),
            manager matches Some(m) ==> m.wf(),
        ensures
            s.visualization_enabled == self@.visualization_enabled,
            s.visualized_mesh_count == self@.meshes.len() as i64,
            manager matches Some(m) ==> s.managed_chunk_states == m.states().dom().len() as i32
                && s.render_distance == m.render_distance_spec(),
            manager is None ==> s.managed_chunk_states == 0 && s.render_distance == self@.render_distance,
    {
        let n = self.chunk_meshes.len();
        let (managed_chunk_states, render_distance) = match manager {
            Some(m) => (m.get_chunk_count(), m.get_render_distance()),
            None => (0i32, self.render_distance),
        };
        ChunkControllerStats {
            managed_chunk_states,
            render_distance,
            visualization_enabled: self.visualization_enabled,
            visualized_mesh_count: n as i64,
        }
    }

    /// Asks for an update in the next frame.
    pub fn force_update(&mut self)
        requires
            old(self).wf(),
        ensures
            final(self).wf(),
            (final(self)@ == ChunkControllerView { needs_update: true, ..old(self)@ }),
    {
        self.needs_update = true;
    }

    /// Selects a debug view; a change (to the mode, or 0 for a negative one)
    /// asks for every mesh to be rebuilt.
    pub fn set_debug_visualization_mode(&mut self, mode: i32)
        requires
            old(self).wf(),
        ensures
            final(self).wf(),
            mode != old(self)@.debug_mode ==> (final(self)@ == ChunkControllerView {
                debug_mode: if mode < 0 { 0i32 } else { mode },
                needs_visual_update: true,
                ..old(self)@
            }),
            mode == old(self)@.debug_mode ==> final(self)@ == old(self)@,
    {
        if mode != self.debug_mode {
            self.debug_mode = if mode < 0 { 0 } else { mode };
            self.needs_visual_update = true;
        }
    }

    /// Drops both queues and every mesh, returning the meshes' positions,
    /// and asks for an update so that they are made again.
    pub fn force_regenerate_visuals(&mut self) -> (freed: Vec<ChunkPosition>)
        requires
            old(self).wf(),
        ensures
            final(self).wf(),
            (final(self)@ == ChunkControllerView {
                creation_queue: Seq::empty(),
                removal_queue: Seq::empty(),
                meshes: Set::empty(),
                needs_update: true,
                ..old(self)@
            }),
            pos_views(freed@).to_set() == old(self)@.meshes,
            no_dups(pos_views(freed@)),
    {
        self.mesh_creation_queue.clear();
        self.mesh_removal_queue.clear();
        proof {
            assert(pos_views(self.mesh_creation_queue@) =~= Seq::empty());
            assert(pos_views(self.mesh_removal_queue@) =~= Seq::empty());
        }
        let freed = self.drain_meshes();
        self.needs_update = true;
        freed
    }

    /// Queues for creation every ready chunk of the square around the
    /// player that has no mesh and is not queued yet, in increasing order of
    /// (x, z); then queues for removal every mesh outside the square that is
    /// not queued for removal yet.
    pub fn update_visualization(&mut self, manager: &ChunkManager)
        requires
            old(self).wf(),
            manager.wf(),
        ensures
            final(self).wf(),
            visualization_outcome(manager.states(), old(self)@, final(self)@),
    {
        let ghost v = self@;
        let ghost c0 = self.mesh_creation_queue@;
        let ghost r0 = self.mesh_removal_queue@;
        let ghost states = manager.states();
        let rd = self.render_distance as i64;
        let px = self.player_chunk_x as i64;
        let pz = self.player_chunk_z as i64;
        let ghost gpx = px as int;
        let ghost gpz = pz as int;
        let ghost grd = rd as int;
        let mut x: i64 = px - rd;
        while x <= px + rd
            invariant
                self.wf(),
                self@ == (ChunkControllerView { creation_queue: self@.creation_queue, ..v }),
                self.mesh_removal_queue@ == r0,
                v.creation_queue == pos_views(c0),
                v.render_distance as int == grd,
                v.player_chunk.0 as int == gpx,
                v.player_chunk.1 as int == gpz,
                grd == rd, gpx == px, gpz == pz,
                1 <= rd <= 32,
                chunk_in_bounds(gpx, gpz),
                manager.wf(),
                states == manager.states(),
                px - rd <= x <= px + rd + 1,
                self.mesh_creation_queue@.take(c0.len() as int) == c0,
                c0.len() <= self.mesh_creation_queue@.len(),
                forall|i: int| c0.len() <= i < self.mesh_creation_queue@.len() ==>
                    needs_mesh(states, v, #[trigger] self.mesh_creation_queue@[i]@) && self.mesh_creation_queue@[i]@.0 < x,
                forall|k: (i32, i32)| needs_mesh(states, v, k) && k.0 < x ==>
                    pos_views(self.mesh_creation_queue@).skip(c0.len() as int).contains(k),
                forall|i: int, j: int| c0.len() <= i < j < self.mesh_creation_queue@.len() ==>
                    lex_lt(self.mesh_creation_queue@[i]@, self.mesh_creation_queue@[j]@),
            decreases px + rd + 1 - x,
        {
            let mut z: i64 = pz - rd;
            while z <= pz + rd
                invariant
                    self.wf(),
                    self@ == (ChunkControllerView { creation_queue: self@.creation_queue, ..v }),
                    self.mesh_removal_queue@ == r0,
                    v.creation_queue == pos_views(c0),
                    v.render_distance as int == grd,
                    v.player_chunk.0 as int == gpx,
                    v.player_chunk.1 as int == gpz,
                    grd == rd, gpx == px, gpz == pz,
                    1 <= rd <= 32,
                    chunk_in_bounds(gpx, gpz),
                    manager.wf(),
                    states == manager.states(),
                    px - rd <= x <= px + rd,
                    pz - rd <= z <= pz + rd + 1,
                    self.mesh_creation_queue@.take(c0.len() as int) == c0,
                    c0.len() <= self.mesh_creation_queue@.len(),
                    forall|i: int| c0.len() <= i < self.mesh_creation_queue@.len() ==>
                        needs_mesh(states, v, #[trigger] self.mesh_creation_queue@[i]@) && before(self.mesh_creation_queue@[i]@, x as int, z as int),
                    forall|k: (i32, i32)| needs_mesh(states, v, k) && before(k, x as int, z as int) ==>
                        pos_views(self.mesh_creation_queue@).skip(c0.len() as int).contains(k),
                    forall|i: int, j: int| c0.len() <= i < j < self.mesh_creation_queue@.len() ==>
                        lex_lt(self.mesh_creation_queue@[i]@, self.mesh_creation_queue@[j]@),
                decreases pz + rd + 1 - z,
            {
                let pos = ChunkPosition { x: x as i32, z: z as i32 };
                let ghost q_before = self.mesh_creation_queue@;
                let is_ready = manager.is_chunk_ready(pos.x, pos.z);
                let mesh_exists = self.chunk_meshes.contains_key(&pos);
                if is_ready && !mesh_exists {
                    if !queue_contains(&self.mesh_creation_queue, &pos) {
                        self.mesh_creation_queue.push(pos);
                    }
                }
                proof {
                    let nz = (z + 1) as int;
                    let q = self.mesh_creation_queue@;
                    // The queued positions beyond the old queue are exactly those seen so far.
                    assert forall|i: int| #![trigger pos_views(q_before)[i]] c0.len() <= i < q_before.len() implies before(q_before[i]@, x as int, z as int) by {}
                    assert(pos.x as int == x as int && pos.z as int == z as int);
                    assert(in_square(pos@, gpx, gpz, grd));
                    assert(is_ready == ready_in(states, pos@));
                    assert(mesh_exists == v.meshes.contains(pos@));
                    assert(v.creation_queue == pos_views(c0));
                    assert(needs_mesh(states, v, pos@) <==> (is_ready && !mesh_exists && !pos_views(c0).contains(pos@)));
                    if is_ready && !mesh_exists && pos_views(c0).contains(pos@) {
                        let j = choose|j: int| 0 <= j < pos_views(c0).len() && pos_views(c0)[j] == pos@;
                        assert(pos_views(q_before)[j] == pos@);
                    }
                    if is_ready && !mesh_exists && !pos_views(c0).contains(pos@) {
                        assert(!pos_views(q_before).contains(pos@)) by {
                            if pos_views(q_before).contains(pos@) {
                                let j = choose|j: int| 0 <= j < pos_views(q_before).len() && pos_views(q_before)[j] == pos@;
                                if j < c0.len() {
                                    assert(pos_views(c0)[j] == pos@);
                                } else {
                                    assert(before(q_before[j]@, x as int, z as int));
                                }
                            }
                        }
                    }
                    assert forall|k: (i32, i32)| needs_mesh(states, v, k) && before(k, x as int, nz) implies
                        pos_views(q).skip(c0.len() as int).contains(k) by {
                        if k == pos@ {
                            assert(pos_views(q).skip(c0.len() as int)[q.len() - 1 - c0.len()] == k);
                        } else {
                            assert(before(k, x as int, z as int));
                            let j = choose|j: int| 0 <= j < pos_views(q_before).skip(c0.len() as int).len()
                                && pos_views(q_before).skip(c0.len() as int)[j] == k;
                            assert(pos_views(q).skip(c0.len() as int)[j] == k);
                        }
                    }
                    assert(q.take(c0.len() as int) =~= c0);
                    assert(no_dups(pos_views(q))) by {
                        assert forall|i: int, j: int| 0 <= i < j < pos_views(q).len() implies pos_views(q)[i] != pos_views(q)[j] by {
                            if j == q.len() - 1 && q.len() > q_before.len() {
                                if i >= c0.len() {
                                    assert(before(q[i]@, x as int, z as int));
                                } else {
                                    assert(pos_views(c0)[i] == pos_views(q)[i]);
                                }
                            } else {
                                assert(pos_views(q_before)[i] == pos_views(q)[i]);
                                assert(pos_views(q_before)[j] == pos_views(q)[j]);
                            }
                        }
                    }
                    assert(self@.creation_queue == pos_views(q));
                }
                z = z + 1;
            }
            proof {
                let nx = (x + 1) as int;
                assert forall|k: (i32, i32)| needs_mesh(states, v, k) && k.0 < nx implies
                    pos_views(self.mesh_creation_queue@).skip(c0.len() as int).contains(k) by {
                    assert(before(k, x as int, z as int));
                }
            }
            x = x + 1;
        }
        proof {
            assert forall|k: (i32, i32)| needs_mesh(states, v, k) implies k.0 < x by {}
            assert(self@.creation_queue.skip(v.creation_queue.len() as int) =~= pos_views(self.mesh_creation_queue@).skip(c0.len() as int));
        }
        let ghost q1 = self@;
        let keys = self.chunk_meshes.keys();
        let mut i: usize = 0;
        while i < keys.len()
            invariant
                self.wf(),
                self@ == (ChunkControllerView { removal_queue: self@.removal_queue, ..q1 }),
                q1.meshes == v.meshes,
                v.render_distance as int == grd,
                v.player_chunk.0 as int == gpx,
                v.player_chunk.1 as int == gpz,
                grd == rd, gpx == px, gpz == pz,
                1 <= rd <= 32,
                chunk_in_bounds(gpx, gpz),
                v.removal_queue == pos_views(r0),
                i <= keys@.len(),
                forall|a: int| 0 <= a < keys@.len() ==> v.meshes.contains(#[trigger] keys@[a]@),
                forall|k: (i32, i32)| v.meshes.contains(k) ==> exists|a: int| 0 <= a < keys@.len() && keys@[a]@ == k,
                self.mesh_removal_queue@.take(r0.len() as int) == r0,
                r0.len() <= self.mesh_removal_queue@.len(),
                forall|a: int| r0.len() <= a < self.mesh_removal_queue@.len() ==>
                    mesh_out_of_view(v, #[trigger] self.mesh_removal_queue@[a]@),
                forall|k: (i32, i32)| mesh_out_of_view(v, k) && key_seen(keys@, i as int, k) ==>
                    pos_views(self.mesh_removal_queue@).skip(r0.len() as int).contains(k),
            decreases keys@.len() - i,
        {
            let pos = keys[i];
            let ghost q_before = self.mesh_removal_queue@;
            let outside = (pos.x as i64) < px - rd || (pos.x as i64) > px + rd || (pos.z as i64) < pz - rd || (pos.z as i64) > pz + rd;
            if outside {
                if !queue_contains(&self.mesh_removal_queue, &pos) {
                    self.mesh_removal_queue.push(pos);
                }
            }
            proof {
                let q = self.mesh_removal_queue@;
                assert(v.meshes.contains(pos@));
                assert(outside == !in_square(pos@, gpx, gpz, grd));
                assert(pos_views(q_before).take(r0.len() as int) =~= pos_views(r0));
                if pos_views(r0).contains(pos@) {
                    let j = choose|j: int| 0 <= j < pos_views(r0).len() && pos_views(r0)[j] == pos@;
                    assert(pos_views(q_before)[j] == pos@);
                }
                assert forall|k: (i32, i32)| mesh_out_of_view(v, k) && key_seen(keys@, i + 1, k) implies
                    pos_views(q).skip(r0.len() as int).contains(k) by {
                    if k == pos@ {
                        if pos_views(q_before).contains(k) {
                            let j = choose|j: int| 0 <= j < pos_views(q_before).len() && pos_views(q_before)[j] == k;
                            if j < r0.len() {
                                assert(pos_views(r0)[j] == k);
                            }
                            assert(pos_views(q).skip(r0.len() as int)[j - r0.len()] == k);
                        } else {
                            assert(pos_views(q).skip(r0.len() as int)[q.len() - 1 - r0.len()] == k);
                        }
                    } else {
                        let j0 = choose|j: int| 0 <= j < i + 1 && keys@[j]@ == k;
                        assert(key_seen(keys@, i as int, k));
                        let j = choose|j: int| 0 <= j < pos_views(q_before).skip(r0.len() as int).len()
                            && pos_views(q_before).skip(r0.len() as int)[j] == k;
                        assert(pos_views(q).skip(r0.len() as int)[j] == k);
                    }
                }
                assert(q.take(r0.len() as int) =~= r0);
                assert(no_dups(pos_views(q))) by {
                    assert forall|a: int, b: int| 0 <= a < b < pos_views(q).len() implies pos_views(q)[a] != pos_views(q)[b] by {
                        if b == q.len() - 1 && q.len() > q_before.len() {
                            assert(pos_views(q_before)[a] == pos_views(q)[a]);
                        } else {
                            assert(pos_views(q_before)[a] == pos_views(q)[a]);
                            assert(pos_views(q_before)[b] == pos_views(q)[b]);
                        }
                    }
                }
            }
            i = i + 1;
        }
        proof {
            assert forall|k: (i32, i32)| mesh_out_of_view(v, k) implies key_seen(keys@, i as int, k) by {}
            assert(self@.removal_queue.skip(v.removal_queue.len() as int) =~= pos_views(self.mesh_removal_queue@).skip(r0.len() as int));
            assert(self@.removal_queue.take(v.removal_queue.len() as int) =~= v.removal_queue);
            assert(self@.creation_queue.take(v.creation_queue.len() as int) =~= v.creation_queue);
            assert forall|a: int, b: int| 0 <= a < b < self@.removal_queue.skip(v.removal_queue.len() as int).len() implies
                self@.removal_queue.skip(v.removal_queue.len() as int)[a] != self@.removal_queue.skip(v.removal_queue.len() as int)[b] by {
                let n = v.removal_queue.len() as int;
                assert(self@.removal_queue.skip(n)[a] == self@.removal_queue[a + n]);
                assert(self@.removal_queue.skip(n)[b] == self@.removal_queue[b + n]);
            }
        }
    }

    /// Takes up to the per-frame budget of positions from the front of the
    /// removal queue; each one not queued for creation loses its mesh.
    /// Returns the positions whose mesh existed, for freeing.
    pub fn process_removals(&mut self) -> (removed: Vec<ChunkPosition>)
        requires
            old(self).wf(),
        ensures
            final(self).wf(),
            ({
                let v = old(self)@;
                let k = removal_count(v);
                let taken = v.removal_queue.take(k);
                &&& (final(self)@ == ChunkControllerView {
                    removal_queue: v.removal_queue.skip(k),
                    meshes: meshes_after_removal(v.meshes, taken, v.creation_queue),
                    ..v
                })
                &&& pos_views(removed@) == taken.filter(|p: (i32, i32)| !v.creation_queue.contains(p) && v.meshes.contains(p))
            }),
    {
        let ghost v = self@;
        let ghost r0 = v.removal_queue;
        let ghost c = v.creation_queue;
        let mut removed: Vec<ChunkPosition> = Vec::new();
        let mut n: usize = 0;
        proof {
            assert(meshes_after_removal(v.meshes, r0.take(0), c) =~= v.meshes);
            assert(r0.skip(0) =~= r0);
            reveal(Seq::filter);
            assert(pos_views(removed@) =~= r0.take(0).filter(|p: (i32, i32)| !c.contains(p) && v.meshes.contains(p)));
        }
        while n < self.mesh_updates_per_frame && self.mesh_removal_queue.len() > 0
            invariant
                self.wf(),
                n <= self.mesh_updates_per_frame,
                n <= r0.len(),
                self.mesh_updates_per_frame == v.mesh_updates_per_frame,
                r0 == v.removal_queue,
                c == v.creation_queue,
                no_dups(r0),
                (self@ == ChunkControllerView {
                    removal_queue: r0.skip(n as int),
                    meshes: meshes_after_removal(v.meshes, r0.take(n as int), c),
                    ..v
                }),
                pos_views(removed@) == r0.take(n as int).filter(|p: (i32, i32)| !c.contains(p) && v.meshes.contains(p)),
            decreases r0.len() - n,
        {
            let ghost before_removed = pos_views(removed@);
            let ghost m_before = self@.meshes;
            let ghost q_before = self.mesh_removal_queue@;
            proof {
                assert(pos_views(q_before) == r0.skip(n as int));
                assert(pos_views(q_before)[0] == q_before[0]@);
                assert(n < r0.len());
            }
            let pos = self.mesh_removal_queue.remove(0);
            proof {
                assert(pos@ == r0[n as int]);
                assert forall|j: int| 0 <= j < pos_views(self.mesh_removal_queue@).len() implies
                    #[trigger] pos_views(self.mesh_removal_queue@)[j] == r0.skip(n + 1)[j] by {
                    assert(self.mesh_removal_queue@[j] == q_before[j + 1]);
                    assert(pos_views(q_before)[j + 1] == r0[n + 1 + j]);
                }
                assert(pos_views(self.mesh_removal_queue@) =~= r0.skip(n + 1));
            }
            let queued = queue_contains(&self.mesh_creation_queue, &pos);
            if !queued {
                match self.chunk_meshes.remove(&pos) {
                    Some(_) => {
                        removed.push(pos);
                    },
                    None => {},
                }
            }
            proof {
                let ni = (n + 1) as int;
                let f = |p: (i32, i32)| !c.contains(p) && v.meshes.contains(p);
                reveal(Seq::filter);
                assert(r0.take(ni).drop_last() =~= r0.take(n as int));
                assert(r0.take(ni).last() == pos@);
                assert(!r0.take(n as int).contains(pos@)) by {
                    if r0.take(n as int).contains(pos@) {
                        let j = choose|j: int| 0 <= j < r0.take(n as int).len() && r0.take(n as int)[j] == pos@;
                        assert(r0[j] == r0[n as int]);
                    }
                }
                assert(m_before.contains(pos@) == v.meshes.contains(pos@));
                assert(pos_views(removed@) =~= r0.take(ni).filter(f)) by {
                    if !queued && v.meshes.contains(pos@) {
                        assert(pos_views(removed@) =~= before_removed.push(pos@));
                    } else {
                        assert(pos_views(removed@) =~= before_removed);
                    }
                }
                assert(self@.meshes =~= meshes_after_removal(v.meshes, r0.take(ni), c)) by {
                    assert forall|p: (i32, i32)| r0.take(ni).contains(p) <==> (r0.take(n as int).contains(p) || p == pos@) by {
                        if r0.take(ni).contains(p) && p != pos@ {
                            let j = choose|j: int| 0 <= j < r0.take(ni).len() && r0.take(ni)[j] == p;
                            assert(r0.take(n as int)[j] == p);
                        }
                        if r0.take(n as int).contains(p) {
                            let j = choose|j: int| 0 <= j < r0.take(n as int).len() && r0.take(n as int)[j] == p;
                            assert(r0.take(ni)[j] == p);
                        }
                        if p == pos@ {
                            assert(r0.take(ni)[n as int] == p);
                        }
                    }
                }
                assert(no_dups(self@.removal_queue)) by {
                    assert forall|a: int, b: int| 0 <= a < b < self@.removal_queue.len() implies self@.removal_queue[a] != self@.removal_queue[b] by {
                        assert(self@.removal_queue[a] == r0[a + ni]);
                        assert(self@.removal_queue[b] == r0[b + ni]);
                    }
                }
            }
            n = n + 1;
        }
        proof {
            if self.mesh_removal_queue.len() == 0 {
                assert(pos_views(self.mesh_removal_queue@).len() == 0);
            }
            assert(n == removal_count(v));
        }
        removed
    }

    /// Goes through the creation queue from the front until the per-frame
    /// budget of positions that can get a mesh (ready, without one, not
    /// being removed) was handled, dropping the others on the way. Each
    /// handled position whose cached data makes a mesh gets one; those are
    /// returned with their data, for building.
    pub fn process_creations(&mut self, manager: &mut ChunkManager) -> (built: Vec<(ChunkPosition, ChunkData)>)
        requires
            old(self).wf(),
            old(manager).wf(),
        ensures
            final(self).wf(),
            final(manager).wf(),
            ({
                let v = old(self)@;
                let st = old(manager).states();
                let s0 = old(manager).cached();
                let n = creation_count(v.creation_queue, st, v, v.mesh_updates_per_frame as nat);
                let made = v.creation_queue.take(n as int).filter(|p: (i32, i32)| builds_mesh(st, v, s0, p));
                &&& (final(self)@ == ChunkControllerView {
                    creation_queue: v.creation_queue.skip(n as int),
                    meshes: v.meshes + made.to_set(),
                    ..v
                })
                &&& built@.len() == made.len()
                &&& forall|i: int| 0 <= i < built@.len() ==> (#[trigger] built@[i]).0@ == made[i]
                    && cached_data(s0, made[i]) == Some(built@[i].1@)
                &&& forall|k: (i32, i32)| #[trigger] cached_data(final(manager).cached(), k) == cached_data(s0, k)
                &&& final(manager).cached() == touched_all(s0, v.creation_queue.take(n as int).filter(|p: (i32, i32)| creation_ready(st, v, p)))
            }),
            final(manager).states() == old(manager).states(),
            final(manager).cached().len() == old(manager).cached().len(),
            final(manager).cache_capacity() == old(manager).cache_capacity(),
            final(manager).render_distance_spec() == old(manager).render_distance_spec(),
            final(manager).chunk_size_spec() == old(manager).chunk_size_spec(),
    {
        let ghost v = self@;
        let ghost c0 = v.creation_queue;
        let ghost st = manager.states();
        let ghost s0 = manager.cached();
        let ghost budget = v.mesh_updates_per_frame as nat;
        let ghost f = |p: (i32, i32)| builds_mesh(st, v, s0, p);
        let ghost g = |p: (i32, i32)| creation_ready(st, v, p);
        let mut built: Vec<(ChunkPosition, ChunkData)> = Vec::new();
        let mut processed: usize = 0;
        let ghost mut i: int = 0;
        proof {
            reveal(Seq::filter);
            assert(c0.skip(0) =~= c0);
            assert(c0.take(0).filter(f) =~= Seq::<(i32, i32)>::empty());
            assert(v.meshes + c0.take(0).filter(f).to_set() =~= v.meshes);
        }
        while processed < self.mesh_updates_per_frame && self.mesh_creation_queue.len() > 0
            invariant
                self.wf(),
                manager.wf(),
                0 <= i <= c0.len(),
                processed <= self.mesh_updates_per_frame,
                self.mesh_updates_per_frame == v.mesh_updates_per_frame,
                budget == v.mesh_updates_per_frame as nat,
                c0 == v.creation_queue,
                no_dups(c0),
                v.chunk_size <= 65534,
                f == (|p: (i32, i32)| builds_mesh(st, v, s0, p)),
                g == (|p: (i32, i32)| creation_ready(st, v, p)),
                manager.cached() == touched_all(s0, c0.take(i).filter(g)),
                (self@ == ChunkControllerView {
                    creation_queue: c0.skip(i),
                    meshes: v.meshes + c0.take(i).filter(f).to_set(),
                    ..v
                }),
                creation_count(c0, st, v, budget) == i + creation_count(c0.skip(i), st, v, (budget - processed) as nat),
                forall|p: (i32, i32)| c0.take(i).filter(f).contains(p) ==> c0.take(i).contains(p),
                built@.len() == c0.take(i).filter(f).len(),
                forall|a: int| 0 <= a < built@.len() ==> (#[trigger] built@[a]).0@ == c0.take(i).filter(f)[a]
                    && cached_data(s0, c0.take(i).filter(f)[a]) == Some(built@[a].1@),
                manager.states() == st,
                forall|k: (i32, i32)| #[trigger] cached_data(manager.cached(), k) == cached_data(s0, k),
                manager.cached().len() == s0.len(),
                manager.cache_capacity() == old(manager).cache_capacity(),
                manager.render_distance_spec() == old(manager).render_distance_spec(),
                manager.chunk_size_spec() == old(manager).chunk_size_spec(),
            decreases self.mesh_creation_queue@.len(),
        {
            let ghost q_before = self.mesh_creation_queue@;
            let ghost made_before = c0.take(i).filter(f);
            let ghost handled_before = c0.take(i).filter(g);
            let ghost built_before = built@;
            proof {
                assert(pos_views(q_before) == c0.skip(i));
                assert(pos_views(q_before)[0] == q_before[0]@);
            }
            let pos = self.mesh_creation_queue[0];
            let is_ready = manager.is_chunk_ready(pos.x, pos.z);
            let has_mesh = self.chunk_meshes.contains_key(&pos);
            let removing = queue_contains(&self.mesh_removal_queue, &pos);
            let needs = is_ready && !has_mesh && !removing;
            proof {
                assert(pos@ == c0[i]);
                assert(!c0.take(i).contains(pos@)) by {
                    if c0.take(i).contains(pos@) {
                        let j = choose|j: int| 0 <= j < c0.take(i).len() && c0.take(i)[j] == pos@;
                        assert(c0[j] == c0[i]);
                    }
                }
                assert(has_mesh == v.meshes.contains(pos@));
                assert(needs == creation_ready(st, v, pos@));
                assert(c0.skip(i).drop_first() =~= c0.skip(i + 1));
                assert(c0.skip(i)[0] == pos@);
            }
            self.mesh_creation_queue.remove(0);
            proof {
                assert forall|j: int| 0 <= j < pos_views(self.mesh_creation_queue@).len() implies
                    #[trigger] pos_views(self.mesh_creation_queue@)[j] == c0.skip(i + 1)[j] by {
                    assert(self.mesh_creation_queue@[j] == q_before[j + 1]);
                    assert(pos_views(q_before)[j + 1] == c0[i + 1 + j]);
                }
                assert(pos_views(self.mesh_creation_queue@) =~= c0.skip(i + 1));
                assert(no_dups(pos_views(self.mesh_creation_queue@))) by {
                    assert forall|a: int, b: int| 0 <= a < b < pos_views(self.mesh_creation_queue@).len() implies
                        pos_views(self.mesh_creation_queue@)[a] != pos_views(self.mesh_creation_queue@)[b] by {
                        assert(pos_views(self.mesh_creation_queue@)[a] == c0[i + 1 + a]);
                        assert(pos_views(self.mesh_creation_queue@)[b] == c0[i + 1 + b]);
                    }
                }
            }
            let mut made_mesh = false;
            if needs {
                processed = processed + 1;
                let ghost s1 = manager.cached();
                proof {
                    manager.lemma_cache_shape();
                }
                let data = manager.get_cached_chunk_data(pos.x, pos.z);
                proof {
                    let idx = lru_index_of(s1, pos@);
                    if idx >= 0 {
                        lemma_move_to_front(s1, idx);
                    }
                    assert(cached_data(s1, pos@) == cached_data(s0, pos@));
                    assert(ready_in(st, pos@));
                    assert(data matches Some(d) ==> cached_data(s0, pos@) == Some(d@));
                    assert(data is None ==> cached_data(s0, pos@) is None);
                }
                match data {
                    Some(d) => {
                        if mesh_input_valid(self.chunk_size, d.heightmap.len(), d.biome_indices.len(), d.biome_blend_weights.len()) {
                            self.chunk_meshes.insert(pos, true);
                            built.push((pos, d));
                            made_mesh = true;
                        }
                    },
                    None => {},
                }
            }
            proof {
                reveal(Seq::filter);
                let ni = i + 1;
                assert(c0.take(ni).drop_last() =~= c0.take(i));
                assert(c0.take(ni).last() == pos@);
                assert(made_mesh == f(pos@));
                let handled = c0.take(ni).filter(g);
                if needs {
                    assert(handled =~= handled_before.push(pos@));
                    assert(handled.drop_last() =~= handled_before);
                } else {
                    assert(handled =~= handled_before);
                }
                let made = c0.take(ni).filter(f);
                if made_mesh {
                    assert(made =~= made_before.push(pos@));
                    assert(built@ =~= built_before.push(built@[built@.len() - 1]));
                } else {
                    assert(made =~= made_before);
                    assert(built@ =~= built_before);
                }
                assert forall|p: (i32, i32)| made.contains(p) implies c0.take(ni).contains(p) by {
                    if p == pos@ {
                        assert(c0.take(ni)[i] == p);
                    } else {
                        assert(made_before.contains(p)) by {
                            let j = choose|j: int| 0 <= j < made.len() && made[j] == p;
                            if made_mesh {
                                assert(j < made_before.len());
                            }
                            assert(made_before[j] == p);
                        }
                        assert(c0.take(i).filter(f).contains(p));
                        assert(c0.take(i).contains(p));
                        let j = choose|j: int| 0 <= j < c0.take(i).len() && c0.take(i)[j] == p;
                        assert(c0.take(ni)[j] == p);
                    }
                }
                assert(self@.meshes =~= v.meshes + made.to_set()) by {
                    assert forall|p: (i32, i32)| made.contains(p) <==> (made_before.contains(p) || (made_mesh && p == pos@)) by {
                        if made.contains(p) && !(made_mesh && p == pos@) {
                            let j = choose|j: int| 0 <= j < made.len() && made[j] == p;
                            if made_mesh {
                                assert(j < made_before.len());
                            }
                            assert(made_before[j] == p);
                        }
                        if made_before.contains(p) {
                            let j = choose|j: int| 0 <= j < made_before.len() && made_before[j] == p;
                            assert(made[j] == p);
                        }
                        if made_mesh && p == pos@ {
                            assert(made[made.len() - 1] == p);
                        }
                    }
                }
                i = ni;
            }
        }
        proof {
            if self.mesh_creation_queue.len() == 0 {
                assert(pos_views(self.mesh_creation_queue@).len() == 0);
                assert(c0.skip(i).len() == 0);
            }
            assert(creation_count(c0.skip(i), st, v, (budget - processed) as nat) == 0);
        }
        built
    }

    /// One frame of mesh work: the removal pass, then the creation pass.
    pub fn process_mesh_queues(&mut self, manager: &mut ChunkManager) -> (work: MeshQueueWork)
        requires
            old(self).wf(),
            old(manager).wf(),
        ensures
            final(self).wf(),
            final(manager).wf(),
            ({
                let v = old(self)@;
                let k = removal_count(v);
                let taken = v.removal_queue.take(k);
                let v1 = view_after_removals(v);
                let st = old(manager).states();
                let s0 = old(manager).cached();
                let n = creation_count(v1.creation_queue, st, v1, v1.mesh_updates_per_frame as nat);
                let made = v1.creation_queue.take(n as int).filter(|p: (i32, i32)| builds_mesh(st, v1, s0, p));
                &&& pos_views(work.removed@) == taken.filter(|p: (i32, i32)| !v.creation_queue.contains(p) && v.meshes.contains(p))
                &&& (final(self)@ == ChunkControllerView {
                    creation_queue: v1.creation_queue.skip(n as int),
                    meshes: v1.meshes + made.to_set(),
                    ..v1
                })
                &&& work.built@.len() == made.len()
                &&& forall|i: int| 0 <= i < work.built@.len() ==> (#[trigger] work.built@[i]).0@ == made[i]
                    && cached_data(s0, made[i]) == Some(work.built@[i].1@)
                &&& forall|k: (i32, i32)| #[trigger] cached_data(final(manager).cached(), k) == cached_data(s0, k)
                &&& final(manager).cached() == touched_all(s0, v1.creation_queue.take(n as int).filter(|p: (i32, i32)| creation_ready(st, v1, p)))
            }),
            final(manager).states() == old(manager).states(),
            final(manager).cached().len() == old(manager).cached().len(),
            final(manager).cache_capacity() == old(manager).cache_capacity(),
            final(manager).render_distance_spec() == old(manager).render_distance_spec(),
            final(manager).chunk_size_spec() == old(manager).chunk_size_spec(),
    {
        let removed = self.process_removals();
        let built = self.process_creations(manager);
        MeshQueueWork { removed, built }
    }

    /// The first part of a frame. A pending update asks the chunk manager
    /// to update around the player (the loads it returns must be queued)
    /// and, while visualizing, updates the mesh queues; a pending visual
    /// rebuild then drops the queues and every mesh (returned for freeing)
    /// and asks for another update.
    pub fn begin_frame(&mut self, manager: &mut ChunkManager, now_ms: u64) -> (start: FrameStart)
        requires
            old(self).wf(),
            old(manager).wf(),
        ensures
            final(self).wf(),
            final(manager).wf(),
            ({
                let v = old(self)@;
                let v1 = ChunkControllerView { needs_update: false, ..v };
                &&& v.needs_update ==> update_outcome(old(manager).states(), v.player_chunk.0 as int, v.player_chunk.1 as int,
                    old(manager).render_distance_spec() as int, now_ms, final(manager).states(), start.loads@)
                &&& !v.needs_update ==> final(manager).states() == old(manager).states() && start.loads@.len() == 0
                &&& !v.needs_visual_update && v.needs_update && v.visualization_enabled ==>
                    visualization_outcome(final(manager).states(), v1, final(self)@) && start.freed@.len() == 0
                &&& !v.needs_visual_update && !(v.needs_update && v.visualization_enabled) ==>
                    final(self)@ == v1 && start.freed@.len() == 0
                &&& v.needs_visual_update ==> {
                    &&& (final(self)@ == ChunkControllerView {
                        needs_update: true,
                        needs_visual_update: false,
                        creation_queue: Seq::empty(),
                        removal_queue: Seq::empty(),
                        meshes: Set::empty(),
                        ..v
                    })
                    &&& pos_views(start.freed@).to_set() == v.meshes
                    &&& no_dups(pos_views(start.freed@))
                }
            }),
            final(manager).cached() == old(manager).cached(),
            final(manager).cache_capacity() == old(manager).cache_capacity(),
            final(manager).render_distance_spec() == old(manager).render_distance_spec(),
            final(manager).chunk_size_spec() == old(manager).chunk_size_spec(),
    {
        let mut loads: Vec<ChunkPosition> = Vec::new();
        let mut freed: Vec<ChunkPosition> = Vec::new();
        if self.needs_update {
            proof {
                manager.lemma_render_distance_bounds();
            }
            loads = manager.update(self.player_chunk_x, self.player_chunk_z, now_ms);
            self.needs_update = false;
            if self.visualization_enabled {
                self.update_visualization(manager);
            }
        }
        if self.needs_visual_update {
            freed = self.force_regenerate_visuals();
            self.needs_visual_update = false;
        }
        FrameStart { loads, freed }
    }

    /// The chunk the player stands in.
    pub fn get_player_chunk_coords(&self) -> (c: (i32, i32))
        ensures
            c == self@.player_chunk,
    {
        (self.player_chunk_x, self.player_chunk_z)
    }
}

} // verus!
