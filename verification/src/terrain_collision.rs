//! Heightfield colliders of terrain chunks. Heights are kept as the bit
//! patterns of their floating-point values; the physics engine reads them.
use vstd::prelude::*;
use crate::assoc::AssocMap;
use crate::chunk_manager::ChunkPosition;

verus! {

/// The heightfield of one chunk: `resolution` samples a side, row by row.
pub struct HeightfieldCollider {
    pub resolution: u32,
    pub heights: Vec<u32>,
}

pub struct HeightfieldView {
    pub resolution: u32,
    pub heights: Seq<u32>,
}

impl View for HeightfieldCollider {
    type V = HeightfieldView;

    open spec fn view(&self) -> HeightfieldView {
        HeightfieldView { resolution: self.resolution, heights: self.heights@ }
    }
}

/// The colliders of the terrain, one per chunk.
pub struct TerrainCollisionSystem {
    heightfield_colliders: AssocMap<ChunkPosition, HeightfieldCollider>,
}

fn copy_heights(heights: &[u32]) -> (c: Vec<u32>)
    ensures
        c@ == heights@,
{
    let mut c: Vec<u32> = Vec::new();
    let mut i: usize = 0;
    while i < heights.len()
        invariant
            i <= heights@.len(),
            c@ == heights@.subrange(0, i as int),
        decreases heights@.len() - i,
    {
        c.push(heights[i]);
        i = i + 1;
    }
    assert(heights@.subrange(0, heights@.len() as int) =~= heights@);
    c
}

impl TerrainCollisionSystem {
    pub closed spec fn wf(&self) -> bool {
        self.heightfield_colliders.wf()
    }

    /// The collider of each chunk that has one.
    pub closed spec fn colliders(&self) -> Map<(i32, i32), HeightfieldView> {
        self.heightfield_colliders.map()
    }

    pub fn new() -> (t: Self)
        ensures
            t.wf(),
            t.colliders() == Map::<(i32, i32), HeightfieldView>::empty(),
    {
        TerrainCollisionSystem { heightfield_colliders: AssocMap::new() }
    }

    /// Gives chunk `position` a collider of `heights` at `resolution`; a
    /// collider already there is replaced.
    pub fn create_terrain_collider(&mut self, position: ChunkPosition, heights: &[u32], resolution: u32)
        requires
            old(self).wf(),
        ensures
            final(self).wf(),
            final(self).colliders() == old(self).colliders().insert(position@,
                HeightfieldView { resolution, heights: heights@ }),
    {
        let collider = HeightfieldCollider { resolution, heights: copy_heights(heights) };
        self.heightfield_colliders.insert(position, collider);
    }

    /// Whether chunk (`x`, `z`) has a collider.
    pub fn has_collider(&self, x: i32, z: i32) -> (b: bool)
        requires
            self.wf(),
        ensures
            b == self.colliders().dom().contains((x, z)),
    {
        self.heightfield_colliders.contains_key(&ChunkPosition { x, z })
    }
}

} // verus!
