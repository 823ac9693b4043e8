//! World state: configuration, pending world initialization, a versioned
//! set of serialized entities, and the byte form sent to joining clients.
//!
//! The byte form is produced and read by `bincode`.
use vstd::prelude::*;
use crate::assoc::{AssocMap, MapKey};

verus! {

/// Identifier of a world entity.
#[derive(Clone, Copy, Debug, PartialEq, Eq, Hash, Structural)]
pub struct EntityId {
    pub id: u128,
}

impl View for EntityId {
    type V = u128;

    open spec fn view(&self) -> u128 {
        self.id
    }
}

impl MapKey for EntityId {
    fn same_key(&self, other: &Self) -> (b: bool) {
        self.id == other.id
    }

    fn copy_key(&self) -> (k: Self) {
        *self
    }
}

/// The little-endian bytes of a 64-bit number.
pub open spec fn le_u64(n: u64) -> Seq<u8> {
    Seq::new(8, |i: int| ((n as int / pow256(i)) % 256) as u8)
}

pub open spec fn pow256(i: int) -> int
    decreases i,
{
    if i <= 0 { 1 } else { 256 * pow256(i - 1) }
}

/// A byte sequence with its length in front, as bincode writes a `Vec<u8>`.
pub open spec fn encode_bytes(b: Seq<u8>) -> Seq<u8> {
    le_u64(b.len() as u64) + b
}

/// The entities, one after another, each with its length in front.
pub open spec fn encode_entities(es: Seq<Seq<u8>>) -> Seq<u8>
    decreases es.len(),
{
    if es.len() == 0 {
        Seq::empty()
    } else {
        encode_entities(es.drop_last()) + encode_bytes(es.last())
    }
}

/// The bincode form of (version, entities, terrain data) with the default
/// options: fixed-width little-endian integers and 64-bit lengths.
pub open spec fn encode_world_state(version: u64, es: Seq<Seq<u8>>, terrain: Seq<u8>) -> Seq<u8> {
    le_u64(version) + le_u64(es.len() as u64) + encode_entities(es) + encode_bytes(terrain)
}

/// The version can be read back from its little-endian bytes.
pub proof fn lemma_le_u64_injective(a: u64, b: u64)
    requires
        le_u64(a) == le_u64(b),
    ensures
        a == b,
{
    reveal_with_fuel(pow256, 8);
    assert(pow256(0) == 0x1);
    assert(pow256(1) == 0x100);
    assert(pow256(2) == 0x10000);
    assert(pow256(3) == 0x1000000);
    assert(pow256(4) == 0x100000000);
    assert(pow256(5) == 0x10000000000);
    assert(pow256(6) == 0x1000000000000);
    assert(pow256(7) == 0x100000000000000);
    lemma_le_byte(a, b, 0, 0x1);
    lemma_le_byte(a, b, 1, 0x100);
    lemma_le_byte(a, b, 2, 0x10000);
    lemma_le_byte(a, b, 3, 0x1000000);
    lemma_le_byte(a, b, 4, 0x100000000);
    lemma_le_byte(a, b, 5, 0x10000000000);
    lemma_le_byte(a, b, 6, 0x1000000000000);
    lemma_le_byte(a, b, 7, 0x100000000000000);
    assert(a == b) by (bit_vector)
        requires
            a % 256 == b % 256,
            (a / 0x100) % 256 == (b / 0x100) % 256,
            (a / 0x10000) % 256 == (b / 0x10000) % 256,
            (a / 0x1000000) % 256 == (b / 0x1000000) % 256,
            (a / 0x100000000) % 256 == (b / 0x100000000) % 256,
            (a / 0x10000000000) % 256 == (b / 0x10000000000) % 256,
            (a / 0x1000000000000) % 256 == (b / 0x1000000000000) % 256,
            (a / 0x100000000000000) % 256 == (b / 0x100000000000000) % 256,
    ;
}

proof fn lemma_le_byte(a: u64, b: u64, i: int, p: int)
    requires
        0 <= i < 8,
        p == pow256(i),
        p > 0,
        le_u64(a)[i] == le_u64(b)[i],
    ensures
        (a as int / p) % 256 == (b as int / p) % 256,
{
    assert(le_u64(a)[i] == ((a as int / p) % 256) as u8);
    assert(le_u64(b)[i] == ((b as int / p) % 256) as u8);
}

/// Bytes that begin with the world state of version `v` are read back as
/// version `v` and no other: a state sent to a client arrives with the
/// version it was sent with.
pub proof fn lemma_world_state_read_back(v: u64, es: Seq<Seq<u8>>, t: Seq<u8>, data: Seq<u8>, w: u64)
    requires
        data.len() >= encode_world_state(v, es, t).len(),
        data.subrange(0, encode_world_state(v, es, t).len() as int) == encode_world_state(v, es, t),
        starts_with_world_state(data, w),
    ensures
        starts_with_world_state(data, v),
        w == v,
{
    let (es2, t2) = choose|es2: Seq<Seq<u8>>, t2: Seq<u8>|
        data.len() >= #[trigger] encode_world_state(w, es2, t2).len()
        && data.subrange(0, encode_world_state(w, es2, t2).len() as int) == encode_world_state(w, es2, t2);
    let e1 = encode_world_state(v, es, t);
    let e2 = encode_world_state(w, es2, t2);
    assert(le_u64(v) =~= data.subrange(0, 8)) by {
        assert forall|i: int| 0 <= i < 8 implies le_u64(v)[i] == data[i] by {
            assert(e1[i] == le_u64(v)[i]);
            assert(data.subrange(0, e1.len() as int)[i] == data[i]);
        }
    }
    assert(le_u64(w) =~= data.subrange(0, 8)) by {
        assert forall|i: int| 0 <= i < 8 implies le_u64(w)[i] == data[i] by {
            assert(e2[i] == le_u64(w)[i]);
            assert(data.subrange(0, e2.len() as int)[i] == data[i]);
        }
    }
    lemma_le_u64_injective(v, w);
    assert(starts_with_world_state(data, v)) by {
        assert(data.len() >= encode_world_state(v, es, t).len());
    }
}

/// The data starts with the bytes of a world state of version `v`.
pub open spec fn starts_with_world_state(data: Seq<u8>, v: u64) -> bool {
    exists|es: Seq<Seq<u8>>, t: Seq<u8>|
        data.len() >= #[trigger] encode_world_state(v, es, t).len()
        && data.subrange(0, encode_world_state(v, es, t).len() as int) == encode_world_state(v, es, t)
}

/// `ks` lists every entity id once, in some order.
pub open spec fn entity_order(entities: Map<u128, Seq<u8>>, ks: Seq<u128>) -> bool {
    &&& ks.len() == entities.dom().len()
    &&& forall|i: int| 0 <= i < ks.len() ==> entities.dom().contains(#[trigger] ks[i])
    &&& forall|i: int, j: int| 0 <= i < j < ks.len() ==> ks[i] != ks[j]
}

/// `bytes` are the world state of version `v`: every entity once, with its
/// data, in some order of their ids, and no terrain data.
pub open spec fn is_world_state_of(v: u64, entities: Map<u128, Seq<u8>>, bytes: Seq<u8>) -> bool {
    exists|ks: Seq<u128>| #[trigger] entity_order(entities, ks)
        && bytes == encode_world_state(v, ks.map_values(|k: u128| entities[k]), Seq::empty())
}

/// `bincode::serialize` of a (version, entities, terrain data) tuple.
#[verifier::external_body]
fn bincode_serialize_world_state(version: u64, entities: &Vec<Vec<u8>>, terrain: &Vec<u8>) -> (r: Vec<u8>)
    ensures
        r@ == encode_world_state(version, entities@.map_values(|e: Vec<u8>| e@), terrain@),
{
    bincode::serialize(&(version, entities, terrain)).unwrap()
}

/// `bincode::deserialize` into a (version, entities, terrain data) tuple,
/// with its default options (fixed-width integers, no size limit, trailing
/// bytes allowed): it succeeds exactly when the data starts with the bytes
/// of such a tuple, which it then gives back.
#[verifier::external_body]
fn bincode_deserialize_world_state(data: &[u8]) -> (r: Option<(u64, Vec<Vec<u8>>, Vec<u8>)>)
    ensures
        r matches Some(t) ==> data@.len() >= encode_world_state(t.0, t.1@.map_values(|e: Vec<u8>| e@), t.2@).len()
            && data@.subrange(0, encode_world_state(t.0, t.1@.map_values(|e: Vec<u8>| e@), t.2@).len() as int)
            == encode_world_state(t.0, t.1@.map_values(|e: Vec<u8>| e@), t.2@),
        (exists|v: u64| starts_with_world_state(data@, v)) ==> r is Some,
{
    bincode::deserialize::<(u64, Vec<Vec<u8>>, Vec<u8>)>(data).ok()
}

/// Whether `data` begins with a world state.
pub fn holds_world_state(data: &[u8]) -> (b: bool)
    ensures
        b == exists|v: u64| starts_with_world_state(data@, v),
{
    match bincode_deserialize_world_state(data) {
        None => false,
        Some((version, entities, terrain)) => {
            proof {
                assert(starts_with_world_state(data@, version)) by {
                    let es = entities@.map_values(|e: Vec<u8>| e@);
                    let t = terrain@;
                    assert(data@.len() >= encode_world_state(version, es, t).len()
                        && data@.subrange(0, encode_world_state(version, es, t).len() as int) == encode_world_state(version, es, t));
                }
            }
            true
        },
    }
}

/// The world's configuration; `R` holds the generation parameters.
pub struct WorldStateConfig<R> {
    pub seed: u64,
    pub world_size: (u32, u32),
    pub generation_parameters: R,
}

/// What generating the initial world asks of the terrain managers: the seed
/// to give the biome manager and the chunks to request, in order.
pub struct WorldGenerationRequest {
    pub biome_seed: u32,
    pub chunks: Vec<(i32, i32)>,
}

/// The chunks requested around the origin when the world is generated.
pub open spec fn origin_chunks() -> Seq<(i32, i32)> {
    seq![(0i32, 0i32), (-1i32, 0i32), (0i32, -1i32), (1i32, 0i32), (0i32, 1i32)]
}

/// The versioned state of the world.
pub struct WorldStateManager<R> {
    entities: AssocMap<EntityId, Vec<u8>>,
    config: WorldStateConfig<R>,
    current_version: u64,
    pending_init: bool,
    pending_seed: u64,
    pending_size: (u32, u32),
    has_terrain_managers: bool,
    is_terrain_initialized: bool,
    initialized: bool,
}

impl<R> WorldStateManager<R> {
    pub closed spec fn wf(&self) -> bool {
        self.entities.wf()
    }

    /// The serialized entities by id.
    pub closed spec fn entities(&self) -> Map<u128, Seq<u8>> {
        self.entities.map()
    }

    pub closed spec fn version(&self) -> u64 {
        self.current_version
    }

    pub closed spec fn config_spec(&self) -> WorldStateConfig<R> {
        self.config
    }

    /// (pending, seed, size) of the world initialization not yet carried out.
    pub closed spec fn pending(&self) -> (bool, u64, (u32, u32)) {
        (self.pending_init, self.pending_seed, self.pending_size)
    }

    pub closed spec fn initialized_spec(&self) -> bool {
        self.initialized
    }

    pub closed spec fn terrain_initialized_spec(&self) -> bool {
        self.is_terrain_initialized
    }

    pub closed spec fn has_terrain_spec(&self) -> bool {
        self.has_terrain_managers
    }

    /// A world with no entities at version 0, nothing pending.
    pub fn new(config: WorldStateConfig<R>) -> (w: Self)
        ensures
            w.wf(),
            w.entities() == Map::<u128, Seq<u8>>::empty(),
            w.version() == 0,
            w.config_spec() == config,
            w.pending() == (false, 0u64, (0u32, 0u32)),
            !w.initialized_spec(),
            !w.terrain_initialized_spec(),
            !w.has_terrain_spec(),
    {
        WorldStateManager {
            entities: AssocMap::new(),
            config,
            current_version: 0,
            pending_init: false,
            pending_seed: 0,
            pending_size: (0, 0),
            has_terrain_managers: false,
            is_terrain_initialized: false,
            initialized: false,
        }
    }

    /// Records a world initialization for the configured seed and size.
    pub fn initialize(&mut self) -> (r: Result<(), String>)
        requires
            old(self).wf(),
        ensures
            final(self).wf(),
            r is Ok,
            final(self).pending() == (true, old(self).config_spec().seed, old(self).config_spec().world_size),
            final(self).initialized_spec(),
            final(self).entities() == old(self).entities(),
            final(self).version() == old(self).version(),
            final(self).config_spec() == old(self).config_spec(),
            final(self).terrain_initialized_spec() == old(self).terrain_initialized_spec(),
            final(self).has_terrain_spec() == old(self).has_terrain_spec(),
    {
        self.pending_init = true;
        self.pending_seed = self.config.seed;
        self.pending_size = self.config.world_size;
        self.initialized = true;
        Ok(())
    }

    pub fn is_initialized(&self) -> (b: bool)
        ensures
            b == self.initialized_spec(),
    {
        self.initialized
    }

    /// Records that the biome and chunk managers are attached and set up.
    pub fn initialize_terrain(&mut self) -> (r: Result<(), String>)
        requires
            old(self).wf(),
        ensures
            final(self).wf(),
            r is Ok,
            final(self).terrain_initialized_spec(),
            final(self).has_terrain_spec(),
            final(self).entities() == old(self).entities(),
            final(self).version() == old(self).version(),
            final(self).config_spec() == old(self).config_spec(),
            final(self).pending() == old(self).pending(),
            final(self).initialized_spec() == old(self).initialized_spec(),
    {
        self.has_terrain_managers = true;
        self.is_terrain_initialized = true;
        Ok(())
    }

    pub fn is_terrain_initialized(&self) -> (b: bool)
        ensures
            b == self.terrain_initialized_spec(),
    {
        self.is_terrain_initialized
    }

    pub fn set_pending_world_init(&mut self, seed: u64, size: (u32, u32))
        ensures
            final(self).pending() == (true, seed, size),
            final(self).wf() == old(self).wf(),
            final(self).entities() == old(self).entities(),
            final(self).version() == old(self).version(),
            final(self).config_spec() == old(self).config_spec(),
            final(self).initialized_spec() == old(self).initialized_spec(),
            final(self).terrain_initialized_spec() == old(self).terrain_initialized_spec(),
            final(self).has_terrain_spec() == old(self).has_terrain_spec(),
    {
        self.pending_init = true;
        self.pending_seed = seed;
        self.pending_size = size;
    }

    pub fn get_pending_world_init(&self) -> (p: (bool, u64, (u32, u32)))
        ensures
            p == self.pending(),
    {
        (self.pending_init, self.pending_seed, self.pending_size)
    }

    pub fn clear_pending_world_init(&mut self)
        ensures
            final(self).pending() == (false, old(self).pending().1, old(self).pending().2),
            final(self).wf() == old(self).wf(),
            final(self).entities() == old(self).entities(),
            final(self).version() == old(self).version(),
            final(self).config_spec() == old(self).config_spec(),
            final(self).initialized_spec() == old(self).initialized_spec(),
            final(self).terrain_initialized_spec() == old(self).terrain_initialized_spec(),
            final(self).has_terrain_spec() == old(self).has_terrain_spec(),
    {
        self.pending_init = false;
    }

    /// Generates the initial world: initializes first when the terrain is
    /// not set up, asks the terrain managers, when there are any, for the
    /// seed and the chunks around the origin, and moves to the next version.
    pub fn generate_initial_world(&mut self) -> (req: Option<WorldGenerationRequest>)
        requires
            old(self).wf(),
            old(self).version() < u64::MAX,
        ensures
            final(self).wf(),
            final(self).version() == old(self).version() + 1,
            final(self).entities() == old(self).entities(),
            final(self).config_spec() == old(self).config_spec(),
            !old(self).terrain_initialized_spec() ==> final(self).initialized_spec()
                && final(self).pending() == (true, old(self).config_spec().seed, old(self).config_spec().world_size),
            old(self).terrain_initialized_spec() ==> final(self).initialized_spec() == old(self).initialized_spec()
                && final(self).pending() == old(self).pending(),
            req is Some <==> old(self).terrain_initialized_spec() && old(self).has_terrain_spec(),
            req matches Some(q) ==> q.biome_seed == old(self).config_spec().seed as u32 && q.chunks@ == origin_chunks(),
    {
        if !self.is_terrain_initialized {
            let _ = self.initialize();
        }
        let req = if self.is_terrain_initialized && self.has_terrain_managers {
            let mut chunks: Vec<(i32, i32)> = Vec::new();
            chunks.push((0, 0));
            chunks.push((-1, 0));
            chunks.push((0, -1));
            chunks.push((1, 0));
            chunks.push((0, 1));
            proof {
                assert(chunks@ =~= origin_chunks());
            }
            Some(WorldGenerationRequest { biome_seed: self.config.seed as u32, chunks })
        } else {
            None
        };
        self.current_version = self.current_version + 1;
        req
    }

    /// Adds or replaces an entity and moves to the next version.
    pub fn add_entity(&mut self, id: u128, data: Vec<u8>)
        requires
            old(self).wf(),
            old(self).version() < u64::MAX,
        ensures
            final(self).wf(),
            final(self).entities() == old(self).entities().insert(id, data@),
            final(self).version() == old(self).version() + 1,
            final(self).config_spec() == old(self).config_spec(),
            final(self).pending() == old(self).pending(),
    {
        self.entities.insert(EntityId { id }, data);
        self.current_version = self.current_version + 1;
    }

    /// Removes an entity, if present, and moves to the next version.
    pub fn remove_entity(&mut self, id: u128)
        requires
            old(self).wf(),
            old(self).version() < u64::MAX,
        ensures
            final(self).wf(),
            final(self).entities() == old(self).entities().remove(id),
            final(self).version() == old(self).version() + 1,
            final(self).config_spec() == old(self).config_spec(),
            final(self).pending() == old(self).pending(),
    {
        let _ = self.entities.remove(&EntityId { id });
        self.current_version = self.current_version + 1;
    }

    /// The serialized entity `id`, if present.
    pub fn get_entity(&self, id: u128) -> (r: Option<Vec<u8>>)
        requires
            self.wf(),
        ensures
            r is Some <==> self.entities().dom().contains(id),
            r matches Some(d) ==> d@ == self.entities()[id],
    {
        match self.entities.get(&EntityId { id }) {
            Some(d) => Some(d.clone()),
            None => None,
        }
    }

    pub fn get_version(&self) -> (v: u64)
        ensures
            v == self.version(),
    {
        self.current_version
    }

    /// The world state as bytes: the version, every entity once (in the
    /// order they are kept) and the terrain data, which is empty.
    pub fn serialize_world_state(&self) -> (bytes: Vec<u8>)
        requires
            self.wf(),
        ensures
            is_world_state_of(self.version(), self.entities(), bytes@),
    {
        let ids = self.entities.keys();
        let mut serialized: Vec<Vec<u8>> = Vec::new();
        let mut i: usize = 0;
        while i < ids.len()
            invariant
                self.wf(),
                i <= ids@.len(),
                ids@.len() == self.entities().dom().len(),
                forall|j: int| 0 <= j < ids@.len() ==> self.entities().dom().contains(#[trigger] ids@[j]@),
                serialized@.len() == i,
                forall|j: int| 0 <= j < i ==> #[trigger] serialized@[j]@ == self.entities()[ids@[j]@],
            decreases ids@.len() - i,
        {
            match self.entities.get(&ids[i]) {
                Some(d) => { serialized.push(d.clone()); },
                None => { serialized.push(Vec::new()); },
            }
            i = i + 1;
        }
        let terrain: Vec<u8> = Vec::new();
        let bytes = bincode_serialize_world_state(self.current_version, &serialized, &terrain);
        proof {
            let es = serialized@.map_values(|e: Vec<u8>| e@);
            let ks = ids@.map_values(|k: EntityId| k@);
            assert(terrain@ =~= Seq::<u8>::empty());
            assert(es =~= ks.map_values(|k: u128| self.entities()[k]));
            assert forall|i: int| 0 <= i < ks.len() implies self.entities().dom().contains(#[trigger] ks[i]) by {
                assert(ks[i] == ids@[i]@);
            }
            assert forall|a: int, b: int| 0 <= a < b < ks.len() implies ks[a] != ks[b] by {
                assert(ks[a] == ids@[a]@ && ks[b] == ids@[b]@);
            }
            assert(entity_order(self.entities(), ks));
        }
        bytes
    }

    /// Applies a received world state when it is newer: the entities are
    /// cleared and the version taken over. The data must begin with a world
    /// state (`holds_world_state` tells).
    pub fn deserialize_world_state(&mut self, data: &[u8])
        requires
            old(self).wf(),
            exists|v: u64| starts_with_world_state(data@, v),
        ensures
            final(self).wf(),
            final(self).config_spec() == old(self).config_spec(),
            final(self).pending() == old(self).pending(),
            exists|v: u64| {
                &&& #[trigger] starts_with_world_state(data@, v)
                &&& if v > old(self).version() {
                    final(self).version() == v && final(self).entities() == Map::<u128, Seq<u8>>::empty()
                } else {
                    final(self).version() == old(self).version() && final(self).entities() == old(self).entities()
                }
            },
    {
        match bincode_deserialize_world_state(data) {
            None => {},
            Some((version, entities, terrain)) => {
                proof {
                    assert(starts_with_world_state(data@, version)) by {
                        let es = entities@.map_values(|e: Vec<u8>| e@);
                        let t = terrain@;
                        assert(data@.len() >= encode_world_state(version, es, t).len()
                            && data@.subrange(0, encode_world_state(version, es, t).len() as int) == encode_world_state(version, es, t));
                    }
                }
                self.apply_world_state(version);
            },
        }
    }

    /// Takes over version `version` when it is newer, clearing the entities.
    pub fn apply_world_state(&mut self, version: u64)
        requires
            old(self).wf(),
        ensures
            final(self).wf(),
            final(self).config_spec() == old(self).config_spec(),
            final(self).pending() == old(self).pending(),
            version > old(self).version() ==> final(self).version() == version && final(self).entities() == Map::<u128, Seq<u8>>::empty(),
            version <= old(self).version() ==> final(self).version() == old(self).version() && final(self).entities() == old(self).entities(),
    {
        if version > self.current_version {
            self.entities.clear();
            self.current_version = version;
        }
    }

    pub fn get_config(&self) -> (c: &WorldStateConfig<R>)
        ensures
            *c == self.config_spec(),
    {
        &self.config
    }

    /// Sets the seed and the world size, keeping the generation parameters;
    /// returns the seed to give the biome manager when one is attached.
    pub fn update_seed_and_size(&mut self, seed: u64, world_size: (u32, u32)) -> (biome_seed: Option<u32>)
        requires
            old(self).wf(),
        ensures
            final(self).wf(),
            final(self).config_spec() == (WorldStateConfig { seed, world_size, ..old(self).config_spec() }),
            final(self).entities() == old(self).entities(),
            final(self).version() == old(self).version(),
            final(self).pending() == old(self).pending(),
            final(self).initialized_spec() == old(self).initialized_spec(),
            final(self).terrain_initialized_spec() == old(self).terrain_initialized_spec(),
            final(self).has_terrain_spec() == old(self).has_terrain_spec(),
            biome_seed == (if old(self).has_terrain_spec() { Some(seed as u32) } else { None }),
    {
        self.config.seed = seed;
        self.config.world_size = world_size;
        if self.has_terrain_managers {
            Some(seed as u32)
        } else {
            None
        }
    }

    /// Replaces the configuration; returns the seed to give the biome
    /// manager when one is attached.
    pub fn update_config(&mut self, config: WorldStateConfig<R>) -> (biome_seed: Option<u32>)
        requires
            old(self).wf(),
        ensures
            final(self).wf(),
            final(self).config_spec() == config,
            final(self).entities() == old(self).entities(),
            final(self).version() == old(self).version(),
            final(self).pending() == old(self).pending(),
            biome_seed == (if old(self).has_terrain_spec() { Some(config.seed as u32) } else { None }),
    {
        let seed = config.seed as u32;
        self.config = config;
        if self.has_terrain_managers {
            Some(seed)
        } else {
            None
        }
    }
}

} // verus!
