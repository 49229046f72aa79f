//! Exact closest points of two lines, on integer (fixed-point) coordinates, and the
//! projection of the pointer ray onto the axis along which a face is dragged.

use crate::voxel::{Axis3, Point3i, SignedAxis3, COORD_LIMIT};
use vstd::arithmetic::div_mod::{lemma_fundamental_div_mod, lemma_fundamental_div_mod_converse, lemma_mod_bound};
use vstd::prelude::*;

verus! {

/// The largest coordinate magnitude of a line's origin or direction.
pub const LINE_LIMIT: i64 = 0x10_0000;

/// An integer vector.
#[derive(Clone, Copy, Debug, PartialEq, Eq, Structural)]
pub struct Vec3i {
    pub x: i64,
    pub y: i64,
    pub z: i64,
}

/// The line through `origin` along `direction`.
#[derive(Clone, Copy, Debug, PartialEq, Eq, Structural)]
pub struct Ray3i {
    pub origin: Vec3i,
    pub direction: Vec3i,
}

/// The point `(x, y, z) / den`, with `den > 0`.
#[derive(Clone, Copy, Debug, PartialEq, Eq, Structural)]
pub struct RationalPoint {
    pub x: i128,
    pub y: i128,
    pub z: i128,
    pub den: i128,
}

pub open spec fn dot(a: Vec3i, b: Vec3i) -> int {
    a.x * b.x + a.y * b.y + a.z * b.z
}

/// Two directions are parallel when their cross product vanishes (a zero direction is
/// parallel to every direction).
pub open spec fn parallel(a: Vec3i, b: Vec3i) -> bool {
    a.y * b.z - a.z * b.y == 0 && a.z * b.x - a.x * b.z == 0 && a.x * b.y - a.y * b.x == 0
}

pub open spec fn within_limit(v: Vec3i) -> bool {
    -LINE_LIMIT <= v.x <= LINE_LIMIT && -LINE_LIMIT <= v.y <= LINE_LIMIT && -LINE_LIMIT <= v.z <= LINE_LIMIT
}

pub open spec fn ray_within_limit(r: Ray3i) -> bool {
    within_limit(r.origin) && within_limit(r.direction)
}

/// `p` lies on line `l`: `p = origin + (t / den) * direction` for some integer `t`.
pub open spec fn on_line(p: RationalPoint, l: Ray3i) -> bool {
    exists|t: int| #![trigger t * l.direction.x]
        p.x == p.den * l.origin.x + t * l.direction.x
        && p.y == p.den * l.origin.y + t * l.direction.y
        && p.z == p.den * l.origin.z + t * l.direction.z
}

/// `(q - p) . d` for rational points with one denominator, times that denominator.
pub open spec fn scaled_gap_dot(p: RationalPoint, q: RationalPoint, d: Vec3i) -> int {
    (q.x - p.x) * d.x + (q.y - p.y) * d.y + (q.z - p.z) * d.z
}

/// The magnitudes that the closest points of two lines within `LINE_LIMIT` stay within.
pub open spec fn bounded(p: RationalPoint) -> bool {
    &&& 0 < p.den <= 0x40_0000_0000_0000_0000_0000
    &&& -0x1000_0000_0000_0000_0000_0000_0000 <= p.x <= 0x1000_0000_0000_0000_0000_0000_0000
    &&& -0x1000_0000_0000_0000_0000_0000_0000 <= p.y <= 0x1000_0000_0000_0000_0000_0000_0000
    &&& -0x1000_0000_0000_0000_0000_0000_0000 <= p.z <= 0x1000_0000_0000_0000_0000_0000_0000
}

/// The closest points of two lines that are not parallel: `p1` on `l1` and `p2` on `l2`,
/// with `p2 - p1` perpendicular to both directions.
pub open spec fn closest_points(l1: Ray3i, l2: Ray3i, p1: RationalPoint, p2: RationalPoint) -> bool {
    &&& p1.den > 0 && p2.den == p1.den
    &&& on_line(p1, l1) && on_line(p2, l2)
    &&& scaled_gap_dot(p1, p2, l1.direction) == 0
    &&& scaled_gap_dot(p1, p2, l2.direction) == 0
}

proof fn lemma_square_diff(x: int, y: int)
    ensures
        (x - y) * (x - y) == x * x - 2 * (x * y) + y * y,
{
    assert((x - y) * (x - y) == x * x - 2 * (x * y) + y * y) by (nonlinear_arith);
}

proof fn lemma_swap_product(p: int, q: int, r: int, s: int)
    ensures
        (p * q) * (p * q) == (p * p) * (q * q),
        (p * s) * (r * q) == (p * q) * (r * s),
{
    assert((p * q) * (p * q) == (p * p) * (q * q)) by (nonlinear_arith);
    assert((p * s) * (r * q) == (p * q) * (r * s)) by (nonlinear_arith);
}

proof fn lemma_expand_product3(x1: int, x2: int, x3: int, y1: int, y2: int, y3: int)
    ensures
        (x1 + x2 + x3) * (y1 + y2 + y3) == x1 * y1 + x1 * y2 + x1 * y3 + x2 * y1 + x2 * y2 + x2 * y3 + x3 * y1 + x3
            * y2 + x3 * y3,
{
    assert((x1 + x2 + x3) * (y1 + y2 + y3) == x1 * y1 + x1 * y2 + x1 * y3 + x2 * y1 + x2 * y2 + x2 * y3 + x3 * y1
        + x3 * y2 + x3 * y3) by (nonlinear_arith);
}

proof fn lemma_expand_square3(p1: int, p2: int, p3: int)
    ensures
        (p1 + p2 + p3) * (p1 + p2 + p3) == p1 * p1 + p2 * p2 + p3 * p3 + 2 * (p1 * p2) + 2 * (p1 * p3) + 2 * (p2 * p3),
{
    assert((p1 + p2 + p3) * (p1 + p2 + p3) == p1 * p1 + p2 * p2 + p3 * p3 + 2 * (p1 * p2) + 2 * (p1 * p3) + 2 * (p2
        * p3)) by (nonlinear_arith);
}

/// `|d1|^2 |d2|^2 - (d1 . d2)^2 == |d1 x d2|^2`.
proof fn lemma_lagrange(d1: Vec3i, d2: Vec3i)
    ensures
        dot(d1, d1) * dot(d2, d2) - dot(d1, d2) * dot(d1, d2) == (d1.y * d2.z - d1.z * d2.y) * (d1.y * d2.z - d1.z * d2.y)
            + (d1.z * d2.x - d1.x * d2.z) * (d1.z * d2.x - d1.x * d2.z) + (d1.x * d2.y - d1.y * d2.x) * (d1.x
            * d2.y - d1.y * d2.x),
{
    let (a1, a2, a3, b1, b2, b3) = (d1.x as int, d1.y as int, d1.z as int, d2.x as int, d2.y as int, d2.z as int);
    lemma_square_diff(a2 * b3, a3 * b2);
    lemma_square_diff(a3 * b1, a1 * b3);
    lemma_square_diff(a1 * b2, a2 * b1);
    lemma_swap_product(a2, b3, a3, b2);
    lemma_swap_product(a3, b2, a2, b3);
    lemma_swap_product(a3, b1, a1, b3);
    lemma_swap_product(a1, b3, a3, b1);
    lemma_swap_product(a1, b2, a2, b1);
    lemma_swap_product(a2, b1, a1, b2);
    lemma_swap_product(a1, b1, a1, b1);
    lemma_swap_product(a2, b2, a2, b2);
    lemma_swap_product(a3, b3, a3, b3);
    lemma_swap_product(a2, b2, a3, b3);
    lemma_swap_product(a3, b3, a1, b1);
    lemma_swap_product(a1, b1, a2, b2);
    lemma_expand_product3(a1 * a1, a2 * a2, a3 * a3, b1 * b1, b2 * b2, b3 * b3);
    lemma_expand_square3(a1 * b1, a2 * b2, a3 * b3);
    assert((a1 * b1) * (a2 * b2) == (a2 * b2) * (a1 * b1)) by (nonlinear_arith);
    assert((a1 * b1) * (a3 * b3) == (a3 * b3) * (a1 * b1)) by (nonlinear_arith);
}

proof fn lemma_sum_of_squares_zero(u: int, v: int, w: int)
    ensures
        (u * u + v * v + w * w == 0) <==> (u == 0 && v == 0 && w == 0),
{
    lemma_square_nonneg(u);
    lemma_square_nonneg(v);
    lemma_square_nonneg(w);
}

proof fn lemma_square_nonneg(u: int)
    ensures
        u * u >= 0,
        u != 0 ==> u * u > 0,
{
    if u > 0 {
        assert(u * u > 0) by (nonlinear_arith) requires u > 0;
    } else if u < 0 {
        assert(u * u > 0) by (nonlinear_arith) requires u < 0;
    }
}

fn dot_exec(a: Vec3i, b: Vec3i) -> (r: i128)
    requires
        within_limit(a),
        -2 * LINE_LIMIT <= b.x <= 2 * LINE_LIMIT,
        -2 * LINE_LIMIT <= b.y <= 2 * LINE_LIMIT,
        -2 * LINE_LIMIT <= b.z <= 2 * LINE_LIMIT,
    ensures
        r == dot(a, b),
        -0x800_0000_0000 <= r <= 0x800_0000_0000,
{
    let (ax, ay, az) = (a.x as i128, a.y as i128, a.z as i128);
    let (bx, by, bz) = (b.x as i128, b.y as i128, b.z as i128);
    assert(-0x200_0000_0000 <= ax * bx <= 0x200_0000_0000) by (nonlinear_arith)
        requires -0x10_0000 <= ax <= 0x10_0000, -0x20_0000 <= bx <= 0x20_0000;
    assert(-0x200_0000_0000 <= ay * by <= 0x200_0000_0000) by (nonlinear_arith)
        requires -0x10_0000 <= ay <= 0x10_0000, -0x20_0000 <= by <= 0x20_0000;
    assert(-0x200_0000_0000 <= az * bz <= 0x200_0000_0000) by (nonlinear_arith)
        requires -0x10_0000 <= az <= 0x10_0000, -0x20_0000 <= bz <= 0x20_0000;
    ax * bx + ay * by + az * bz
}

/// Finds the closest pair of points `(p1, p2)` where `p1` is on line `l1` and `p2` is on line
/// `l2`; `None` when the lines are parallel, where there is no single such pair.
pub fn closest_points_on_two_lines(l1: &Ray3i, l2: &Ray3i) -> (r: Option<(RationalPoint, RationalPoint)>)
    requires
        ray_within_limit(*l1),
        ray_within_limit(*l2),
    ensures
        r.is_none() <==> parallel(l1.direction, l2.direction),
        r matches Some((p1, p2)) ==> closest_points(*l1, *l2, p1, p2) && bounded(p1) && bounded(p2),
{
    let (o1, d1, o2, d2) = (l1.origin, l1.direction, l2.origin, l2.direction);
    // The gap between the points is perpendicular to both lines:
    //   t1 * d1 - t2 * d2 + t3 * (d1 x d2) = o2 - o1.
    let w = Vec3i { x: o1.x - o2.x, y: o1.y - o2.y, z: o1.z - o2.z };
    let a = dot_exec(d1, d1);
    let b = dot_exec(d1, d2);
    let c = dot_exec(d2, d2);
    let d = dot_exec(d1, w);
    let e = dot_exec(d2, w);
    assert(-0x40_0000_0000_0000_0000_0000 <= a * c <= 0x40_0000_0000_0000_0000_0000) by (nonlinear_arith)
        requires -0x800_0000_0000 <= a <= 0x800_0000_0000, -0x800_0000_0000 <= c <= 0x800_0000_0000;
    assert(-0x40_0000_0000_0000_0000_0000 <= b * b <= 0x40_0000_0000_0000_0000_0000) by (nonlinear_arith)
        requires -0x800_0000_0000 <= b <= 0x800_0000_0000;
    let den = a * c - b * b;
    proof {
        lemma_lagrange(d1, d2);
        lemma_sum_of_squares_zero(d1.y * d2.z - d1.z * d2.y, d1.z * d2.x - d1.x * d2.z, d1.x * d2.y - d1.y * d2.x);
        assert(den >= 0) by (nonlinear_arith)
            requires den == (d1.y * d2.z - d1.z * d2.y) * (d1.y * d2.z - d1.z * d2.y)
                + (d1.z * d2.x - d1.x * d2.z) * (d1.z * d2.x - d1.x * d2.z) + (d1.x * d2.y - d1.y * d2.x) * (d1.x
                * d2.y - d1.y * d2.x);
    }
    if den == 0 {
        return None;
    }
    assert(b * b >= 0) by (nonlinear_arith);
    assert(a >= 0 && c >= 0) by {
        lemma_square_nonneg(d1.x as int);
        lemma_square_nonneg(d1.y as int);
        lemma_square_nonneg(d1.z as int);
        lemma_square_nonneg(d2.x as int);
        lemma_square_nonneg(d2.y as int);
        lemma_square_nonneg(d2.z as int);
    }
    assert(a * c <= 0x40_0000_0000_0000_0000_0000) by (nonlinear_arith)
        requires 0 <= a <= 0x800_0000_0000, 0 <= c <= 0x800_0000_0000;
    assert(-0x40_0000_0000_0000_0000_0000 <= b * e <= 0x40_0000_0000_0000_0000_0000) by (nonlinear_arith)
        requires -0x800_0000_0000 <= b <= 0x800_0000_0000, -0x800_0000_0000 <= e <= 0x800_0000_0000;
    assert(-0x40_0000_0000_0000_0000_0000 <= c * d <= 0x40_0000_0000_0000_0000_0000) by (nonlinear_arith)
        requires -0x800_0000_0000 <= c <= 0x800_0000_0000, -0x800_0000_0000 <= d <= 0x800_0000_0000;
    assert(-0x40_0000_0000_0000_0000_0000 <= a * e <= 0x40_0000_0000_0000_0000_0000) by (nonlinear_arith)
        requires -0x800_0000_0000 <= a <= 0x800_0000_0000, -0x800_0000_0000 <= e <= 0x800_0000_0000;
    assert(-0x40_0000_0000_0000_0000_0000 <= b * d <= 0x40_0000_0000_0000_0000_0000) by (nonlinear_arith)
        requires -0x800_0000_0000 <= b <= 0x800_0000_0000, -0x800_0000_0000 <= d <= 0x800_0000_0000;
    let n1 = b * e - c * d;
    let n2 = a * e - b * d;
    let p1 = scaled_point(o1, d1, n1, den);
    let p2 = scaled_point(o2, d2, n2, den);
    proof {
        let (ai, bi, ci, di, ei, deni, n1i, n2i) = (a as int, b as int, c as int, d as int, e as int, den as int, n1 as int, n2 as int);
        assert(-deni * di + n2i * bi - n1i * ai == 0) by (nonlinear_arith)
            requires deni == ai * ci - bi * bi, n1i == bi * ei - ci * di, n2i == ai * ei - bi * di;
        assert(-deni * ei + n2i * ci - n1i * bi == 0) by (nonlinear_arith)
            requires deni == ai * ci - bi * bi, n1i == bi * ei - ci * di, n2i == ai * ei - bi * di;
        lemma_gap_dot(o1, d1, o2, d2, w, n1i, n2i, deni, d1);
        lemma_gap_dot(o1, d1, o2, d2, w, n1i, n2i, deni, d2);
        lemma_dot_commutes(w, d1);
        lemma_dot_commutes(w, d2);
        lemma_dot_commutes(d2, d1);
        assert(scaled_gap_dot(p1, p2, d1) == 0);
        assert(scaled_gap_dot(p1, p2, d2) == 0);
        lemma_on_line(p1, *l1, n1i);
        lemma_on_line(p2, *l2, n2i);
        assert(deni > 0);
    }
    Some((p1, p2))
}

proof fn lemma_dot_commutes(a: Vec3i, b: Vec3i)
    ensures
        dot(a, b) == dot(b, a),
{
    assert(dot(a, b) == dot(b, a)) by (nonlinear_arith);
}

proof fn lemma_on_line(p: RationalPoint, l: Ray3i, t: int)
    requires
        p.x == p.den * l.origin.x + t * l.direction.x,
        p.y == p.den * l.origin.y + t * l.direction.y,
        p.z == p.den * l.origin.z + t * l.direction.z,
    ensures
        on_line(p, l),
{
}

/// `(p2 - p1) . v`, for `p1 = den * o1 + n1 * d1` and `p2 = den * o2 + n2 * d2`, expands to
/// `-den * (w . v) + n2 * (d2 . v) - n1 * (d1 . v)` with `w = o1 - o2`.
proof fn lemma_gap_dot(o1: Vec3i, d1: Vec3i, o2: Vec3i, d2: Vec3i, w: Vec3i, n1: int, n2: int, den: int, v: Vec3i)
    requires
        w.x == o1.x - o2.x && w.y == o1.y - o2.y && w.z == o1.z - o2.z,
    ensures
        ((den * o2.x + n2 * d2.x) - (den * o1.x + n1 * d1.x)) * v.x + ((den * o2.y + n2 * d2.y) - (den * o1.y + n1
            * d1.y)) * v.y + ((den * o2.z + n2 * d2.z) - (den * o1.z + n1 * d1.z)) * v.z == -den * dot(w, v) + n2
            * dot(d2, v) - n1 * dot(d1, v),
{
    lemma_gap_component(o1.x as int, d1.x as int, o2.x as int, d2.x as int, n1, n2, den, v.x as int);
    lemma_gap_component(o1.y as int, d1.y as int, o2.y as int, d2.y as int, n1, n2, den, v.y as int);
    lemma_gap_component(o1.z as int, d1.z as int, o2.z as int, d2.z as int, n1, n2, den, v.z as int);
    let (wx, wy, wz) = (w.x * v.x, w.y * v.y, w.z * v.z);
    let (ex, ey, ez) = (d2.x * v.x, d2.y * v.y, d2.z * v.z);
    let (fx, fy, fz) = (d1.x * v.x, d1.y * v.y, d1.z * v.z);
    assert(-den * (wx + wy + wz) == -den * wx + -den * wy + -den * wz) by (nonlinear_arith);
    assert(n2 * (ex + ey + ez) == n2 * ex + n2 * ey + n2 * ez) by (nonlinear_arith);
    assert(n1 * (fx + fy + fz) == n1 * fx + n1 * fy + n1 * fz) by (nonlinear_arith);
}

proof fn lemma_gap_component(o1: int, d1: int, o2: int, d2: int, n1: int, n2: int, den: int, v: int)
    ensures
        ((den * o2 + n2 * d2) - (den * o1 + n1 * d1)) * v == -den * ((o1 - o2) * v) + n2 * (d2 * v) - n1 * (d1 * v),
{
    lemma_distribute4(den * o2, n2 * d2, den * o1, n1 * d1, v);
    assert((den * o2) * v == den * (o2 * v)) by (nonlinear_arith);
    assert((den * o1) * v == den * (o1 * v)) by (nonlinear_arith);
    assert((n2 * d2) * v == n2 * (d2 * v)) by (nonlinear_arith);
    assert((n1 * d1) * v == n1 * (d1 * v)) by (nonlinear_arith);
    assert((o1 - o2) * v == o1 * v - o2 * v) by (nonlinear_arith);
    assert(-den * (o1 * v - o2 * v) == -(den * (o1 * v)) + den * (o2 * v)) by (nonlinear_arith);
}

proof fn lemma_distribute4(a: int, b: int, c: int, d: int, v: int)
    ensures
        ((a + b) - (c + d)) * v == a * v + b * v - c * v - d * v,
{
    assert(((a + b) - (c + d)) * v == a * v + b * v - c * v - d * v) by (nonlinear_arith);
}

/// `den * o + n * d`, as a rational point over `den`.
fn scaled_point(o: Vec3i, d: Vec3i, n: i128, den: i128) -> (r: RationalPoint)
    requires
        within_limit(o),
        within_limit(d),
        0 < den <= 0x40_0000_0000_0000_0000_0000,
        -0x80_0000_0000_0000_0000_0000 <= n <= 0x80_0000_0000_0000_0000_0000,
    ensures
        r.den == den,
        bounded(r),
        r.x == den * o.x + n * d.x,
        r.y == den * o.y + n * d.y,
        r.z == den * o.z + n * d.z,
{
    let (ox, oy, oz, dx, dy, dz) = (o.x as i128, o.y as i128, o.z as i128, d.x as i128, d.y as i128, d.z as i128);
    assert(-0x800_0000_0000_0000_0000_0000_0000 <= den * ox <= 0x800_0000_0000_0000_0000_0000_0000) by (nonlinear_arith)
        requires 0 < den <= 0x80_0000_0000_0000_0000_0000, -0x10_0000 <= ox <= 0x10_0000;
    assert(-0x800_0000_0000_0000_0000_0000_0000 <= den * oy <= 0x800_0000_0000_0000_0000_0000_0000) by (nonlinear_arith)
        requires 0 < den <= 0x80_0000_0000_0000_0000_0000, -0x10_0000 <= oy <= 0x10_0000;
    assert(-0x800_0000_0000_0000_0000_0000_0000 <= den * oz <= 0x800_0000_0000_0000_0000_0000_0000) by (nonlinear_arith)
        requires 0 < den <= 0x80_0000_0000_0000_0000_0000, -0x10_0000 <= oz <= 0x10_0000;
    assert(-0x800_0000_0000_0000_0000_0000_0000 <= n * dx <= 0x800_0000_0000_0000_0000_0000_0000) by (nonlinear_arith)
        requires -0x80_0000_0000_0000_0000_0000 <= n <= 0x80_0000_0000_0000_0000_0000, -0x10_0000 <= dx <= 0x10_0000;
    assert(-0x800_0000_0000_0000_0000_0000_0000 <= n * dy <= 0x800_0000_0000_0000_0000_0000_0000) by (nonlinear_arith)
        requires -0x80_0000_0000_0000_0000_0000 <= n <= 0x80_0000_0000_0000_0000_0000, -0x10_0000 <= dy <= 0x10_0000;
    assert(-0x800_0000_0000_0000_0000_0000_0000 <= n * dz <= 0x800_0000_0000_0000_0000_0000_0000) by (nonlinear_arith)
        requires -0x80_0000_0000_0000_0000_0000 <= n <= 0x80_0000_0000_0000_0000_0000, -0x10_0000 <= dz <= 0x10_0000;
    RationalPoint { x: den * ox + n * dx, y: den * oy + n * dy, z: den * oz + n * dz, den }
}

/// The pointer ray is given in fixed point, with this many units per voxel.
pub const RAY_SCALE: i64 = 256;

/// The component of a rational point along `axis`, as a numerator over its denominator.
pub open spec fn rational_coord(p: RationalPoint, axis: Axis3) -> int {
    match axis {
        Axis3::X => p.x as int,
        Axis3::Y => p.y as int,
        Axis3::Z => p.z as int,
    }
}

/// The voxel coordinate, along `axis`, of a fixed-point rational point.
pub open spec fn voxel_coord(p: RationalPoint, axis: Axis3) -> int {
    rational_coord(p, axis) / (p.den * RAY_SCALE)
}

/// The line through the voxel corner `p` (in fixed point) along `normal`.
pub open spec fn axis_line(p: Point3i, normal: SignedAxis3) -> Ray3i {
    Ray3i {
        origin: Vec3i { x: (p.x * RAY_SCALE) as i64, y: (p.y * RAY_SCALE) as i64, z: (p.z * RAY_SCALE) as i64 },
        direction: match normal.axis {
            Axis3::X => Vec3i { x: normal.sign as i64, y: 0, z: 0 },
            Axis3::Y => Vec3i { x: 0, y: normal.sign as i64, z: 0 },
            Axis3::Z => Vec3i { x: 0, y: 0, z: normal.sign as i64 },
        },
    }
}

/// Where the pointer ray projects onto the line along `normal` through `previous`: the voxel
/// holding the point of that line closest to the ray. `None` when the ray is parallel to the
/// line, when the ray or the line lies beyond the fixed-point range, or when the voxel would
/// lie out of bounds.
pub fn drag_point_along_normal(previous: Point3i, normal: SignedAxis3, pointer: &Ray3i) -> (r: Option<Point3i>)
    requires
        normal.wf(),
    ensures
        r matches Some(q) ==> {
            &&& ray_within_limit(axis_line(previous, normal))
            &&& ray_within_limit(*pointer)
            &&& exists|p1: RationalPoint, p2: RationalPoint| #![trigger closest_points(axis_line(previous, normal), *pointer, p1, p2)]
                closest_points(axis_line(previous, normal), *pointer, p1, p2)
                && -COORD_LIMIT <= voxel_coord(p1, normal.axis) <= COORD_LIMIT
                && q == previous.with_axis_spec(normal.axis, voxel_coord(p1, normal.axis) as i32)
        },
        ray_within_limit(axis_line(previous, normal)) && ray_within_limit(*pointer) ==> {
            &&& parallel(axis_line(previous, normal).direction, pointer.direction) ==> r.is_none()
            &&& !parallel(axis_line(previous, normal).direction, pointer.direction) ==> (r.is_some()
                || exists|p1: RationalPoint, p2: RationalPoint| #![trigger closest_points(axis_line(previous, normal), *pointer, p1, p2)]
                closest_points(axis_line(previous, normal), *pointer, p1, p2)
                && !(-COORD_LIMIT <= voxel_coord(p1, normal.axis) <= COORD_LIMIT))
        },
{
    let lim: i32 = (LINE_LIMIT / RAY_SCALE) as i32;
    if previous.x < -lim || previous.x > lim || previous.y < -lim || previous.y > lim || previous.z < -lim || previous.z > lim {
        return None;
    }
    if !vec_within_limit(&pointer.origin) || !vec_within_limit(&pointer.direction) {
        return None;
    }
    let s = normal.sign as i64;
    let direction = match normal.axis {
        Axis3::X => Vec3i { x: s, y: 0, z: 0 },
        Axis3::Y => Vec3i { x: 0, y: s, z: 0 },
        Axis3::Z => Vec3i { x: 0, y: 0, z: s },
    };
    let line = Ray3i {
        origin: Vec3i { x: previous.x as i64 * RAY_SCALE, y: previous.y as i64 * RAY_SCALE, z: previous.z as i64 * RAY_SCALE },
        direction,
    };
    assert(line == axis_line(previous, normal));
    match closest_points_on_two_lines(&line, pointer) {
        None => None,
        Some((p1, p2)) => {
            let num = match normal.axis {
                Axis3::X => p1.x,
                Axis3::Y => p1.y,
                Axis3::Z => p1.z,
            };
            assert(num == rational_coord(p1, normal.axis));
            let c = floor_div(num, p1.den * RAY_SCALE as i128);
            if c < -(COORD_LIMIT as i128) || c > COORD_LIMIT as i128 {
                proof {
                    assert(closest_points(axis_line(previous, normal), *pointer, p1, p2));
                }
                return None;
            }
            let q = previous.with_axis_component(normal.axis, c as i32);
            proof {
                assert(closest_points(axis_line(previous, normal), *pointer, p1, p2));
            }
            Some(q)
        },
    }
}

fn vec_within_limit(v: &Vec3i) -> (r: bool)
    ensures
        r == within_limit(*v),
{
    -LINE_LIMIT <= v.x && v.x <= LINE_LIMIT && -LINE_LIMIT <= v.y && v.y <= LINE_LIMIT && -LINE_LIMIT <= v.z
        && v.z <= LINE_LIMIT
}

/// `num / den` rounded down.
fn floor_div(num: i128, den: i128) -> (r: i128)
    requires
        0 < den,
        -0x1000_0000_0000_0000_0000_0000_0000_0000 <= num <= 0x1000_0000_0000_0000_0000_0000_0000_0000,
    ensures
        r == num as int / den as int,
{
    if num >= 0 {
        let q = (num as u128) / (den as u128);
        proof {
            lemma_fundamental_div_mod(num as int, den as int);
            lemma_mod_bound(num as int, den as int);
        }
        q as i128
    } else {
        let m = (-num) as u128;
        let q0 = m / (den as u128);
        let r0 = m % (den as u128);
        proof {
            let (mi, di) = (m as int, den as int);
            lemma_fundamental_div_mod(mi, di);
            lemma_mod_bound(mi, di);
            if r0 == 0 {
                assert(num == (-(q0 as int)) * di + 0) by (nonlinear_arith)
                    requires mi == di * q0 + r0, r0 == 0, num == -mi;
                lemma_fundamental_div_mod_converse(num as int, di, -(q0 as int), 0);
            } else {
                assert(num == (-(q0 as int) - 1) * di + (di - r0)) by (nonlinear_arith)
                    requires mi == di * q0 + r0, num == -mi;
                lemma_fundamental_div_mod_converse(num as int, di, -(q0 as int) - 1, di - r0);
            }
        }
        if r0 == 0 {
            -(q0 as i128)
        } else {
            -(q0 as i128) - 1
        }
    }
}

} // verus!
