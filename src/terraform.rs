//! The terraform brush: a sphere that adds or removes solid by changing signed distances,
//! strongest at its center.

use crate::voxel::{Extent3i, Point3i, Voxel, COORD_LIMIT};
use vstd::prelude::*;

verus! {

/// Whether a brush stroke adds or removes solid.
#[derive(Clone, Copy, Debug, PartialEq, Eq, Structural)]
pub enum TerraformOperation {
    MakeSolid,
    RemoveSolid,
}

/// The change in signed distance at the center of the brush.
pub const SDF_GROWTH_FACTOR: u32 = 20;

/// The strength `k` is reached at squared distance `d2` from the center of a brush of radius
/// `r`: `20 * (1 - sqrt(d2) / r) >= k - 1/2`.
pub open spec fn strength_reached(d2: int, r: int, k: int) -> bool {
    1600 * d2 <= r * r * (41 - 2 * k) * (41 - 2 * k)
}

/// The largest strength in `0..=k` that is reached, or `0`.
pub open spec fn reached_strength(d2: int, r: int, k: nat) -> int
    decreases k,
{
    if k == 0 {
        0
    } else if strength_reached(d2, r, k as int) {
        k as int
    } else {
        reached_strength(d2, r, (k - 1) as nat)
    }
}

/// The magnitude of the brush's change at squared distance `d2` from the center of a sphere of
/// radius `r`: `20 * (1 - sqrt(d2) / r)` rounded to the nearest integer (halves away from
/// zero), and `0` where that is negative.
pub open spec fn brush_strength(d2: int, r: int) -> int {
    if d2 > r * r {
        0
    } else {
        reached_strength(d2, r, 20)
    }
}

/// The squared Euclidean distance between two points.
pub open spec fn dist2(p: Point3i, c: Point3i) -> int {
    (p.x - c.x) * (p.x - c.x) + (p.y - c.y) * (p.y - c.y) + (p.z - c.z) * (p.z - c.z)
}

/// `x` clamped to the range of `i8`.
pub open spec fn clamp_i8(x: int) -> int {
    if x < -128 {
        -128
    } else if x > 127 {
        127
    } else {
        x
    }
}

/// A voxel after a brush change of `delta`: its distance moves by `delta`, clamped to the
/// range of `i8`; an adding change that leaves it solid gives it the brush material, and a
/// removing change that leaves it not solid makes it empty.
pub open spec fn brushed_voxel(v: Voxel, delta: int, voxel_type: u8) -> Voxel {
    let d = clamp_i8(v.distance + delta);
    Voxel {
        voxel_type: if delta < 0 && d < 0 {
            voxel_type
        } else if delta > 0 && d >= 0 {
            0
        } else {
            v.voxel_type
        },
        distance: d as i8,
    }
}

/// The signed change of a stroke of strength `s`.
pub open spec fn stroke_delta(op: TerraformOperation, s: int) -> int {
    match op {
        TerraformOperation::MakeSolid => -s,
        TerraformOperation::RemoveSolid => s,
    }
}

/// One stroke of `op` with radius `r` centered on `c`, as seen by the voxel `v` at `p`.
pub open spec fn terraformed_voxel(
    op: TerraformOperation,
    c: Point3i,
    r: int,
    voxel_type: u8,
    p: Point3i,
    v: Voxel,
) -> Voxel {
    brushed_voxel(v, stroke_delta(op, brush_strength(dist2(p, c), r)), voxel_type)
}

/// `n` strokes in a row that change the distance of `v` by `delta` each.
pub open spec fn repeated_strokes(v: Voxel, delta: int, voxel_type: u8, n: nat) -> Voxel
    decreases n,
{
    if n == 0 {
        v
    } else {
        brushed_voxel(repeated_strokes(v, delta, voxel_type, (n - 1) as nat), delta, voxel_type)
    }
}

/// Repeated strokes saturate rather than wrap: `n` adding strokes leave a distance of
/// `max(-128, d - n * s)`, and `n` removing strokes one of `min(127, d + n * s)`, so no
/// number of strokes drives a distance below -128 or above 127.
pub proof fn lemma_strokes_clamp(v: Voxel, s: int, voxel_type: u8, n: nat)
    requires
        s >= 0,
    ensures
        repeated_strokes(v, -s, voxel_type, n).distance == clamp_i8(v.distance - n * s),
        repeated_strokes(v, s, voxel_type, n).distance == clamp_i8(v.distance + n * s),
    decreases n,
{
    if n > 0 {
        lemma_strokes_clamp(v, s, voxel_type, (n - 1) as nat);
        assert((n - 1) * s + s == n * s) by (nonlinear_arith);
        assert(0 <= (n - 1) * s) by (nonlinear_arith)
            requires n >= 1, s >= 0;
    }
}

proof fn lemma_reached_strength_range(d2: int, r: int, k: nat)
    ensures
        0 <= reached_strength(d2, r, k) <= k,
    decreases k,
{
    if k > 0 {
        lemma_reached_strength_range(d2, r, (k - 1) as nat);
    }
}

/// The brush strength at squared distance `d2` for radius `r`.
pub fn brush_strength_exec(d2: u64, r: u32) -> (s: u32)
    ensures
        s == brush_strength(d2 as int, r as int),
        s <= SDF_GROWTH_FACTOR,
{
    let r128 = r as u128;
    assert(r128 * r128 <= 0xffff_ffff_ffff_ffff_ffff_ffff) by (nonlinear_arith)
        requires r128 <= 0xffff_ffff;
    let r2: u128 = r128 * r128;
    if (d2 as u128) > r2 {
        return 0;
    }
    let mut k: u32 = SDF_GROWTH_FACTOR;
    proof {
        lemma_reached_strength_range(d2 as int, r as int, 20);
    }
    while k > 0
        invariant
            k <= 20,
            r2 == r * r,
            d2 <= r2,
            reached_strength(d2 as int, r as int, 20) == reached_strength(d2 as int, r as int, k as nat),
        decreases k,
    {
        let m: u128 = 41u128 - 2u128 * (k as u128);
        assert(r2 <= 0xffff_ffff_ffff_ffff_ffff_ffff) by (nonlinear_arith)
            requires r2 == r * r, r <= 0xffff_ffff;
        assert(r2 * m <= 0xffff_ffff_ffff_ffff_ffff_ffff * 41) by (nonlinear_arith)
            requires r2 <= 0xffff_ffff_ffff_ffff_ffff_ffff, m <= 41;
        assert(r2 * m * m <= 0xffff_ffff_ffff_ffff_ffff_ffff * 41 * 41) by (nonlinear_arith)
            requires r2 <= 0xffff_ffff_ffff_ffff_ffff_ffff, m <= 41, r2 * m <= 0xffff_ffff_ffff_ffff_ffff_ffff * 41;
        if 1600 * (d2 as u128) <= r2 * m * m {
            assert(strength_reached(d2 as int, r as int, k as int)) by (nonlinear_arith)
                requires 1600 * d2 <= r2 * m * m, r2 == r * r, m == 41 - 2 * k;
            return k;
        }
        assert(!strength_reached(d2 as int, r as int, k as int)) by (nonlinear_arith)
            requires 1600 * d2 > r2 * m * m, r2 == r * r, m == 41 - 2 * k;
        k = k - 1;
    }
    0
}

/// The squared distance between two in-bounds points.
pub fn dist2_exec(p: Point3i, c: Point3i) -> (r: u64)
    requires
        p.in_bounds(),
        c.in_bounds(),
    ensures
        r == dist2(p, c),
{
    let ax = abs_diff(p.x, c.x);
    let ay = abs_diff(p.y, c.y);
    let az = abs_diff(p.z, c.z);
    assert(ax * ax <= 0x8000_0000 * 0x8000_0000) by (nonlinear_arith)
        requires 0 <= ax <= 0x8000_0000;
    assert(ay * ay <= 0x8000_0000 * 0x8000_0000) by (nonlinear_arith)
        requires 0 <= ay <= 0x8000_0000;
    assert(az * az <= 0x8000_0000 * 0x8000_0000) by (nonlinear_arith)
        requires 0 <= az <= 0x8000_0000;
    assert(dist2(p, c) == ax * ax + ay * ay + az * az) by (nonlinear_arith)
        requires
            ax == p.x - c.x || ax == c.x - p.x,
            ay == p.y - c.y || ay == c.y - p.y,
            az == p.z - c.z || az == c.z - p.z;
    ax * ax + ay * ay + az * az
}

fn abs_diff(a: i32, b: i32) -> (r: u64)
    requires
        -COORD_LIMIT <= a <= COORD_LIMIT,
        -COORD_LIMIT <= b <= COORD_LIMIT,
    ensures
        r == a - b || r == b - a,
        r <= 0x8000_0000,
{
    if a >= b {
        (a as i64 - b as i64) as u64
    } else {
        (b as i64 - a as i64) as u64
    }
}

/// The voxel `v` at `p` after one stroke.
pub fn terraform_voxel(
    op: TerraformOperation,
    center: Point3i,
    radius: u32,
    voxel_type: u8,
    p: Point3i,
    v: Voxel,
) -> (r: Voxel)
    requires
        p.in_bounds(),
        center.in_bounds(),
    ensures
        r == terraformed_voxel(op, center, radius as int, voxel_type, p, v),
{
    let s = brush_strength_exec(dist2_exec(p, center), radius) as i16;
    let delta: i16 = match op {
        TerraformOperation::MakeSolid => -s,
        TerraformOperation::RemoveSolid => s,
    };
    let new_dist = v.distance as i16 + delta;
    let d: i8 = if new_dist < -128 {
        -128
    } else if new_dist > 127 {
        127
    } else {
        new_dist as i8
    };
    let t = if delta < 0 && d < 0 {
        voxel_type
    } else if delta > 0 && d >= 0 {
        0
    } else {
        v.voxel_type
    };
    Voxel { voxel_type: t, distance: d }
}

/// Whether a sphere of `radius` around `center` lies in bounds.
pub open spec fn sphere_in_bounds(center: Point3i, radius: int) -> bool {
    &&& center.in_bounds()
    &&& -COORD_LIMIT <= center.x - radius && center.x + radius <= COORD_LIMIT
    &&& -COORD_LIMIT <= center.y - radius && center.y + radius <= COORD_LIMIT
    &&& -COORD_LIMIT <= center.z - radius && center.z + radius <= COORD_LIMIT
}

/// The cube of edge `2 * radius + 1` centered on `center`.
pub fn centered_extent(center: Point3i, radius: u32) -> (r: Extent3i)
    requires
        sphere_in_bounds(center, radius as int),
    ensures
        r.in_bounds(),
        r.wf(),
        r.minimum == (Point3i { x: (center.x - radius) as i32, y: (center.y - radius) as i32, z: (center.z - radius) as i32 }),
        r.shape == (Point3i { x: (2 * radius + 1) as i32, y: (2 * radius + 1) as i32, z: (2 * radius + 1) as i32 }),
{
    let r = radius as i32;
    let minimum = Point3i { x: center.x - r, y: center.y - r, z: center.z - r };
    let e = 2 * r + 1;
    Extent3i { minimum, shape: Point3i { x: e, y: e, z: e } }
}

/// Whether a sphere of `radius` around `center` lies in bounds.
pub fn sphere_fits(center: Point3i, radius: u32) -> (r: bool)
    ensures
        r == sphere_in_bounds(center, radius as int),
{
    let (x, y, z, rr) = (center.x as i64, center.y as i64, center.z as i64, radius as i64);
    let lim = COORD_LIMIT as i64;
    -lim <= x && x <= lim && -lim <= y && y <= lim && -lim <= z && z <= lim && -lim <= x - rr
        && x + rr <= lim && -lim <= y - rr && y + rr <= lim && -lim <= z - rr && z + rr <= lim
}

} // verus!
