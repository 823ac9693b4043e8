//! The integer side of chunk meshes: when a chunk's data makes a mesh, the
//! triangle index buffer of a chunk's grid, and clamped height lookups.
//!
//! Vertex positions, normals and blend weights are floating point and are
//! computed outside the library from the same grid.
use vstd::prelude::*;

verus! {

/// Data of these lengths makes a mesh of the given chunk size: the size is
/// positive and each layer has one sample per vertex of the
/// (size + 1) by (size + 1) grid.
pub open spec fn mesh_lengths_ok(chunk_size: u32, heights: nat, biomes: nat, weights: nat) -> bool {
    let n = (chunk_size + 1) * (chunk_size + 1);
    &&& chunk_size > 0
    &&& heights == n
    &&& biomes == n
    &&& weights == n
}

/// Whether height, biome and weight layers of these lengths make a mesh of
/// the given chunk size.
pub fn mesh_input_valid(chunk_size: u32, heights: usize, biomes: usize, weights: usize) -> (b: bool)
    requires
        chunk_size <= 65534,
    ensures
        b == mesh_lengths_ok(chunk_size, heights as nat, biomes as nat, weights as nat),
{
    let w: u64 = chunk_size as u64 + 1;
    assert(w * w <= 65535 * 65535) by (nonlinear_arith)
        requires
            w <= 65535,
    ;
    let n: u64 = w * w;
    chunk_size > 0 && heights as u64 == n && biomes as u64 == n && weights as u64 == n
}

/// Corner `r` (0 to 5) of the two triangles of quad (`ix`, `iz`) in a grid
/// `chunk_size` quads wide: (00, 10, 01) then (10, 11, 01), each corner the
/// index of its vertex in row-major order.
pub open spec fn quad_corner(chunk_size: int, iz: int, ix: int, r: int) -> int {
    let gw = chunk_size + 1;
    let i00 = iz * gw + ix;
    let i10 = iz * gw + (ix + 1);
    let i01 = (iz + 1) * gw + ix;
    let i11 = (iz + 1) * gw + (ix + 1);
    if r == 0 {
        i00
    } else if r == 1 {
        i10
    } else if r == 2 {
        i01
    } else if r == 3 {
        i10
    } else if r == 4 {
        i11
    } else {
        i01
    }
}

proof fn lemma_row_major_before(cs: int, a: int, b: int, c: int, d: int)
    by (nonlinear_arith)
    requires
        0 <= b < cs,
        0 <= d < cs,
        0 <= a,
        a < c || (a == c && b < d),
    ensures
        a * cs + b < c * cs + d,
{
}

proof fn lemma_next_row(cs: int, iz: int)
    by (nonlinear_arith)
    ensures
        iz * cs + cs == (iz + 1) * cs,
{
}

proof fn lemma_corner_bound(cs: int, gw: int, iz: int, ix: int)
    by (nonlinear_arith)
    requires
        gw == cs + 1,
        0 <= iz < cs,
        0 <= ix < cs,
        cs <= 65534,
    ensures
        0 <= iz * gw,
        iz * gw + ix + 1 < (iz + 1) * gw + ix + 1,
        (iz + 1) * gw + (ix + 1) < gw * gw,
        gw * gw <= 65535 * 65535,
{
    assert((iz + 1) * gw <= cs * gw);
}

/// Every corner of every triangle names a vertex of the grid: its index
/// lies below the grid's (size + 1) * (size + 1) vertices.
pub proof fn lemma_corners_in_grid(chunk_size: int, iz: int, ix: int, r: int)
    requires
        0 <= iz < chunk_size,
        0 <= ix < chunk_size,
        0 <= r < 6,
    ensures
        0 <= quad_corner(chunk_size, iz, ix, r) < (chunk_size + 1) * (chunk_size + 1),
{
    let gw = chunk_size + 1;
    assert(0 <= iz * gw) by (nonlinear_arith) requires 0 <= iz, gw > 0;
    assert((iz + 1) * gw + (ix + 1) < gw * gw) by (nonlinear_arith)
        requires
            0 <= iz < chunk_size,
            0 <= ix < chunk_size,
            gw == chunk_size + 1,
    {
        assert((iz + 1) * gw <= chunk_size * gw);
    }
    assert(iz * gw + ix < (iz + 1) * gw) by (nonlinear_arith) requires ix < gw;
}

/// The triangle indices of a chunk's grid: for each quad, rows first, the
/// six corners of its two triangles.
pub fn generate_mesh_indices(chunk_size: u32) -> (indices: Vec<i32>)
    requires
        chunk_size <= 65534,
    ensures
        indices@.len() == 6 * (chunk_size * chunk_size),
        forall|iz: int, ix: int, r: int| 0 <= iz < chunk_size && 0 <= ix < chunk_size && 0 <= r < 6 ==>
            #[trigger] indices@[6 * (iz * chunk_size + ix) + r] == quad_corner(chunk_size as int, iz, ix, r) as i32,
{
    let ghost cs = chunk_size as int;
    let gw: u64 = chunk_size as u64 + 1;
    let mut indices: Vec<i32> = Vec::new();
    let mut iz: u64 = 0;
    while iz < chunk_size as u64
        invariant
            cs == chunk_size as int,
            cs <= 65534,
            gw == cs + 1,
            iz <= cs,
            indices@.len() == 6 * (iz * cs),
            forall|z: int, x: int, r: int| 0 <= z < iz && 0 <= x < cs && 0 <= r < 6 ==>
                #[trigger] indices@[6 * (z * cs + x) + r] == quad_corner(cs, z, x, r) as i32,
        decreases cs - iz,
    {
        let mut ix: u64 = 0;
        while ix < chunk_size as u64
            invariant
                cs == chunk_size as int,
                cs <= 65534,
                gw == cs + 1,
                iz < cs,
                ix <= cs,
                indices@.len() == 6 * (iz * cs + ix),
                forall|z: int, x: int, r: int| 0 <= z < cs && 0 <= x < cs && 0 <= r < 6 && (z < iz || (z == iz && x < ix)) ==>
                    #[trigger] indices@[6 * (z * cs + x) + r] == quad_corner(cs, z, x, r) as i32,
            decreases cs - ix,
        {
            proof {
                lemma_corner_bound(cs, gw as int, iz as int, ix as int);
            }
            let i00 = (iz * gw + ix) as u32;
            let i10 = (iz * gw + (ix + 1)) as u32;
            let i01 = ((iz + 1) * gw + ix) as u32;
            let i11 = ((iz + 1) * gw + (ix + 1)) as u32;
            let ghost before = indices@;
            indices.push(i00 as i32);
            indices.push(i10 as i32);
            indices.push(i01 as i32);
            indices.push(i10 as i32);
            indices.push(i11 as i32);
            indices.push(i01 as i32);
            proof {
                let base = 6 * (iz * cs + ix);
                assert forall|z: int, x: int, r: int| 0 <= z < cs && 0 <= x < cs && 0 <= r < 6 && (z < iz || (z == iz && x < ix + 1)) implies
                    #[trigger] indices@[6 * (z * cs + x) + r] == quad_corner(cs, z, x, r) as i32 by {
                    if z == iz && x == ix {
                        assert(indices@[base + r] == quad_corner(cs, z, x, r) as i32);
                    } else {
                        lemma_row_major_before(cs, z, x, iz as int, ix as int);
                        assert(indices@[6 * (z * cs + x) + r] == before[6 * (z * cs + x) + r]);
                    }
                }
            }
            ix = ix + 1;
        }
        proof {
            lemma_next_row(cs, iz as int);
        }
        iz = iz + 1;
    }
    proof {
        assert(iz == cs);
    }
    indices
}

/// The index of the height sample nearest to (`x`, `z`) clamped into a
/// grid `chunk_size` samples wide, row-major.
pub open spec fn clamped_index(x: i32, z: i32, chunk_size: u32) -> int {
    let hi = chunk_size - 1;
    let xc = if x < 0 { 0 } else if x > hi { hi } else { x as int };
    let zc = if z < 0 { 0 } else if z > hi { hi } else { z as int };
    zc * chunk_size + xc
}

/// The height sample (an `f32` bit pattern) at (`x`, `z`), clamped into the
/// chunk; the bit pattern of 0.0 where the clamped index lies outside the
/// samples.
pub fn get_clamped_height(x: i32, z: i32, heightmap: &Vec<u32>, chunk_size: u32) -> (h: u32)
    requires
        1 <= chunk_size <= 65536,
    ensures
        h == (if clamped_index(x, z, chunk_size) < heightmap@.len() {
            heightmap@[clamped_index(x, z, chunk_size)]
        } else {
            0u32
        }),
{
    let hi: i32 = chunk_size as i32 - 1;
    let x_clamp: u32 = if x < 0 { 0 } else if x > hi { hi as u32 } else { x as u32 };
    let z_clamp: u32 = if z < 0 { 0 } else if z > hi { hi as u32 } else { z as u32 };
    assert(z_clamp * chunk_size + x_clamp <= (chunk_size - 1) * chunk_size + (chunk_size - 1)) by (nonlinear_arith)
        requires
            z_clamp <= chunk_size - 1,
            x_clamp <= chunk_size - 1,
            chunk_size >= 1,
    ;
    assert((chunk_size - 1) * chunk_size + (chunk_size - 1) < 0x1_0000_0000) by (nonlinear_arith)
        requires
            1 <= chunk_size <= 65536,
    ;
    let idx = (z_clamp * chunk_size + x_clamp) as usize;
    if idx < heightmap.len() {
        heightmap[idx]
    } else {
        0
    }
}

} // verus!
