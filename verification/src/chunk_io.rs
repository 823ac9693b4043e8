//! What the chunk storage thread is asked for: where a chunk's file lies,
//! and in which order a region is preloaded.
//!
//! Reading and writing the files happens outside the library.
use vstd::prelude::*;
use crate::chunk_manager::{ChunkPosition, in_square, lex_lt, before};
use crate::section_map::{decimal, digit_char};

verus! {

/// `v` in decimal, with a minus sign when negative.
pub open spec fn signed_decimal(v: int) -> Seq<char> {
    if v < 0 {
        seq!['-'] + decimal((-v) as nat)
    } else {
        decimal(v as nat)
    }
}

fn digit(d: u32) -> (s: &'static str)
    requires
        d < 10,
    ensures
        s@ == seq![digit_char(d as nat)],
{
    proof {
        reveal_strlit("0");
        reveal_strlit("1");
        reveal_strlit("2");
        reveal_strlit("3");
        reveal_strlit("4");
        reveal_strlit("5");
        reveal_strlit("6");
        reveal_strlit("7");
        reveal_strlit("8");
        reveal_strlit("9");
    }
    if d == 0 {
        "0"
    } else if d == 1 {
        "1"
    } else if d == 2 {
        "2"
    } else if d == 3 {
        "3"
    } else if d == 4 {
        "4"
    } else if d == 5 {
        "5"
    } else if d == 6 {
        "6"
    } else if d == 7 {
        "7"
    } else if d == 8 {
        "8"
    } else {
        "9"
    }
}

fn unsigned_decimal(n: u32) -> (s: String)
    ensures
        s@ == decimal(n as nat),
    decreases n,
{
    if n < 10 {
        String::from_str(digit(n))
    } else {
        let s = unsigned_decimal(n / 10);
        s.concat(digit(n % 10))
    }
}

/// `v` in decimal.
pub fn signed_decimal_string(v: i32) -> (s: String)
    ensures
        s@ == signed_decimal(v as int),
{
    if v < 0 {
        let magnitude: u32 = if v == i32::MIN { 2147483648u32 } else { (-v) as u32 };
        let minus = String::from_str("-");
        proof {
            reveal_strlit("-");
        }
        let digits = unsigned_decimal(magnitude);
        minus.concat(digits.as_str())
    } else {
        unsigned_decimal(v as u32)
    }
}

/// The file of chunk `position` under `save_dir`.
pub open spec fn chunk_path_of(save_dir: Seq<char>, position: (i32, i32)) -> Seq<char> {
    save_dir + "/chunk_"@ + signed_decimal(position.0 as int) + "_"@ + signed_decimal(position.1 as int) + ".json"@
}

/// The file in which chunk `position` is stored under `save_dir`:
/// `<save_dir>/chunk_<x>_<z>.json`.
pub fn get_chunk_path(save_dir: &str, position: ChunkPosition) -> (path: String)
    ensures
        path@ == chunk_path_of(save_dir@, position@),
{
    let s = String::from_str(save_dir);
    let s = s.concat("/chunk_");
    let x = signed_decimal_string(position.x);
    let s = s.concat(x.as_str());
    let s = s.concat("_");
    let z = signed_decimal_string(position.z);
    let s = s.concat(z.as_str());
    s.concat(".json")
}

/// The squared distance of chunk `k` from chunk `c`.
pub open spec fn dist2(c: (i32, i32), k: (i32, i32)) -> int {
    (k.0 - c.0) * (k.0 - c.0) + (k.1 - c.1) * (k.1 - c.1)
}

/// Chunk `a` is preloaded before chunk `b` around `c`: it is nearer, or as
/// near and first in (x, z) order.
pub open spec fn preload_before(c: (i32, i32), a: (i32, i32), b: (i32, i32)) -> bool {
    dist2(c, a) < dist2(c, b) || (dist2(c, a) == dist2(c, b) && lex_lt(a, b))
}

/// A region is preloaded from its centre outwards: the centre comes first,
/// and no chunk comes before a nearer one.
pub proof fn lemma_preload_from_center(center: (i32, i32), radius: int, order: Seq<ChunkPosition>)
    requires
        radius >= 0,
        forall|k: (i32, i32)| in_square(k, center.0 as int, center.1 as int, radius) ==>
            exists|i: int| 0 <= i < order.len() && order[i]@ == k,
        forall|i: int, j: int| 0 <= i < j < order.len() ==> preload_before(center, order[i]@, order[j]@),
    ensures
        order.len() > 0 && order[0]@ == center,
        forall|i: int, j: int| 0 <= i < j < order.len() ==> dist2(center, order[i]@) <= dist2(center, order[j]@),
{
    assert(in_square(center, center.0 as int, center.1 as int, radius));
    let i = choose|i: int| 0 <= i < order.len() && order[i]@ == center;
    if i > 0 {
        assert(preload_before(center, order[0]@, order[i]@));
        let d = dist2(center, order[0]@);
        let a = order[0]@.0 - center.0;
        let b = order[0]@.1 - center.1;
        assert(a * a >= 0 && b * b >= 0) by (nonlinear_arith);
        assert(dist2(center, center) == 0);
        assert(d == 0);
        assert(a * a == 0 && b * b == 0);
        assert(a == 0) by (nonlinear_arith) requires a * a == 0;
        assert(b == 0) by (nonlinear_arith) requires b * b == 0;
        assert(false);
    }
    assert forall|i: int, j: int| 0 <= i < j < order.len() implies dist2(center, order[i]@) <= dist2(center, order[j]@) by {
        assert(preload_before(center, order[i]@, order[j]@));
    }
}

fn dist2_exec(c: ChunkPosition, k: ChunkPosition) -> (d: i64)
    requires
        -32767 <= k.x - c.x <= 32767,
        -32767 <= k.z - c.z <= 32767,
    ensures
        d == dist2(c@, k@),
{
    let dx = k.x as i64 - c.x as i64;
    let dz = k.z as i64 - c.z as i64;
    assert(dx * dx <= 32767 * 32767 && dz * dz <= 32767 * 32767) by (nonlinear_arith)
        requires
            -32767 <= dx <= 32767,
            -32767 <= dz <= 32767,
    ;
    assert(dx * dx >= 0 && dz * dz >= 0) by (nonlinear_arith);
    dx * dx + dz * dz
}

/// The chunks within `radius` of `center`, in both directions, in the order
/// they are preloaded: nearest first, ties in (x, z) order.
pub fn preload_order(center: ChunkPosition, radius: i32) -> (order: Vec<ChunkPosition>)
    requires
        radius <= 32767,
        center.x - radius >= i32::MIN,
        center.x + radius <= i32::MAX,
        center.z - radius >= i32::MIN,
        center.z + radius <= i32::MAX,
    ensures
        forall|i: int| 0 <= i < order@.len() ==> in_square(#[trigger] order@[i]@, center.x as int, center.z as int, radius as int),
        forall|k: (i32, i32)| in_square(k, center.x as int, center.z as int, radius as int) ==>
            exists|i: int| 0 <= i < order@.len() && order@[i]@ == k,
        forall|i: int, j: int| 0 <= i < j < order@.len() ==> preload_before(center@, order@[i]@, order@[j]@),
{
    let ghost c = center@;
    let ghost cx = center.x as int;
    let ghost cz = center.z as int;
    let ghost r = radius as int;
    let mut order: Vec<ChunkPosition> = Vec::new();
    let lo_x = center.x as i64 - radius as i64;
    let hi_x = center.x as i64 + radius as i64;
    let lo_z = center.z as i64 - radius as i64;
    let hi_z = center.z as i64 + radius as i64;
    let mut x: i64 = lo_x;
    while x <= hi_x
        invariant
            c == center@, cx == center.x, cz == center.z, r == radius,
            lo_x == cx - r, hi_x == cx + r, lo_z == cz - r, hi_z == cz + r,
            r <= 32767,
            cx - r >= i32::MIN, cx + r <= i32::MAX, cz - r >= i32::MIN, cz + r <= i32::MAX,
            lo_x <= x,
            x <= hi_x + 1 || hi_x < lo_x,
            forall|i: int| 0 <= i < order@.len() ==> in_square(#[trigger] order@[i]@, cx, cz, r) && order@[i]@.0 < x,
            forall|k: (i32, i32)| in_square(k, cx, cz, r) && k.0 < x ==> exists|i: int| 0 <= i < order@.len() && order@[i]@ == k,
            forall|i: int, j: int| 0 <= i < j < order@.len() ==> preload_before(c, order@[i]@, order@[j]@),
        decreases hi_x + 1 - x,
    {
        let mut z: i64 = lo_z;
        while z <= hi_z
            invariant
                c == center@, cx == center.x, cz == center.z, r == radius,
                lo_x == cx - r, hi_x == cx + r, lo_z == cz - r, hi_z == cz + r,
                r <= 32767,
                cx - r >= i32::MIN, cx + r <= i32::MAX, cz - r >= i32::MIN, cz + r <= i32::MAX,
                lo_x <= x <= hi_x,
                lo_z <= z <= hi_z + 1,
                forall|i: int| 0 <= i < order@.len() ==> in_square(#[trigger] order@[i]@, cx, cz, r) && before(order@[i]@, x as int, z as int),
                forall|k: (i32, i32)| in_square(k, cx, cz, r) && before(k, x as int, z as int) ==>
                    exists|i: int| 0 <= i < order@.len() && order@[i]@ == k,
                forall|i: int, j: int| 0 <= i < j < order@.len() ==> preload_before(c, order@[i]@, order@[j]@),
            decreases hi_z + 1 - z,
        {
            let pos = ChunkPosition { x: x as i32, z: z as i32 };
            let mut j: usize = 0;
            let mut placed = false;
            while j < order.len() && !placed
                invariant
                    c == center@, r == radius, r <= 32767, cx == center.x, cz == center.z,
                    in_square(pos@, cx, cz, r),
                    j <= order@.len(),
                    placed ==> j < order@.len() && !preload_before(c, order@[j as int]@, pos@),
                    forall|i: int| 0 <= i < order@.len() ==> in_square(#[trigger] order@[i]@, cx, cz, r),
                    forall|i: int| 0 <= i < j ==> preload_before(c, #[trigger] order@[i]@, pos@),
                decreases order@.len() - j + (if placed { 0int } else { 1int }),
            {
                let q = order[j];
                proof {
                    assert(in_square(order@[j as int]@, cx, cz, r));
                }
                if preload_before_exec(center, q, pos) {
                    j = j + 1;
                } else {
                    placed = true;
                }
            }
            let ghost before_insert = order@;
            proof {
                assert(in_square(pos@, cx, cz, r));
                assert(!before(pos@, x as int, z as int));
                if j < order@.len() {
                    assert(!preload_before(c, order@[j as int]@, pos@));
                    assert(order@[j as int]@ != pos@);
                    assert(preload_before(c, pos@, order@[j as int]@));
                }
            }
            order.insert(j, pos);
            proof {
                let nz = (z + 1) as int;
                assert forall|i: int| 0 <= i < order@.len() implies in_square(#[trigger] order@[i]@, cx, cz, r) && before(order@[i]@, x as int, nz) by {
                    if i < j {
                        assert(order@[i] == before_insert[i]);
                    } else if i > j {
                        assert(order@[i] == before_insert[i - 1]);
                    }
                }
                assert forall|k: (i32, i32)| in_square(k, cx, cz, r) && before(k, x as int, nz) implies
                    exists|i: int| 0 <= i < order@.len() && order@[i]@ == k by {
                    if k == pos@ {
                        assert(order@[j as int]@ == k);
                    } else {
                        assert(before(k, x as int, z as int));
                        let i = choose|i: int| 0 <= i < before_insert.len() && before_insert[i]@ == k;
                        if i < j {
                            assert(order@[i] == before_insert[i]);
                        } else {
                            assert(order@[i + 1] == before_insert[i]);
                        }
                    }
                }
                assert forall|a: int, b: int| 0 <= a < b < order@.len() implies preload_before(c, order@[a]@, order@[b]@) by {
                    if b < j {
                        assert(order@[a] == before_insert[a] && order@[b] == before_insert[b]);
                    } else if b == j {
                        assert(order@[a] == before_insert[a]);
                    } else if a < j {
                        assert(order@[a] == before_insert[a] && order@[b] == before_insert[b - 1]);
                        assert(preload_before(c, before_insert[a]@, pos@));
                        assert(preload_before(c, pos@, before_insert[j as int]@));
                        if b - 1 > j {
                            assert(preload_before(c, before_insert[j as int]@, before_insert[b - 1]@));
                        }
                    } else if a == j {
                        assert(order@[b] == before_insert[b - 1]);
                        if b - 1 > j {
                            assert(preload_before(c, before_insert[j as int]@, before_insert[b - 1]@));
                        }
                    } else {
                        assert(order@[a] == before_insert[a - 1] && order@[b] == before_insert[b - 1]);
                    }
                }
            }
            z = z + 1;
        }
        proof {
            let nx = (x + 1) as int;
            assert forall|k: (i32, i32)| in_square(k, cx, cz, r) && k.0 < nx implies
                exists|i: int| 0 <= i < order@.len() && order@[i]@ == k by {
                assert(before(k, x as int, z as int));
            }
        }
        x = x + 1;
    }
    proof {
        assert forall|k: (i32, i32)| in_square(k, cx, cz, r) implies k.0 < x by {}
    }
    order
}

fn preload_before_exec(center: ChunkPosition, a: ChunkPosition, b: ChunkPosition) -> (lt: bool)
    requires
        -32767 <= a.x - center.x <= 32767,
        -32767 <= a.z - center.z <= 32767,
        -32767 <= b.x - center.x <= 32767,
        -32767 <= b.z - center.z <= 32767,
    ensures
        lt == preload_before(center@, a@, b@),
{
    let da = dist2_exec(center, a);
    let db = dist2_exec(center, b);
    da < db || (da == db && (a.x < b.x || (a.x == b.x && a.z < b.z)))
}

} // verus!
