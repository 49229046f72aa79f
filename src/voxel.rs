//! Integer points, axes, extents and voxel values.

use vstd::prelude::*;

verus! {

/// An integer point in voxel space.
#[derive(Clone, Copy, Debug, PartialEq, Eq, Structural)]
pub struct Point3i {
    pub x: i32,
    pub y: i32,
    pub z: i32,
}

/// One of the three coordinate axes.
#[derive(Clone, Copy, Debug, PartialEq, Eq, Structural)]
pub enum Axis3 {
    X,
    Y,
    Z,
}

/// An axis together with a direction along it; `sign` is `1` or `-1`.
#[derive(Clone, Copy, Debug, PartialEq, Eq, Structural)]
pub struct SignedAxis3 {
    pub sign: i32,
    pub axis: Axis3,
}

/// The component of `p` along `axis`.
pub open spec fn coord(p: Point3i, axis: Axis3) -> int {
    match axis {
        Axis3::X => p.x as int,
        Axis3::Y => p.y as int,
        Axis3::Z => p.z as int,
    }
}

impl SignedAxis3 {
    pub open spec fn wf(self) -> bool {
        self.sign == 1 || self.sign == -1
    }

    /// The signed axis of a unit vector along a coordinate axis, or `None` for any other vector.
    pub open spec fn from_vector_spec(v: Point3i) -> Option<SignedAxis3> {
        if v.x == 1 && v.y == 0 && v.z == 0 {
            Some(SignedAxis3 { sign: 1, axis: Axis3::X })
        } else if v.x == -1 && v.y == 0 && v.z == 0 {
            Some(SignedAxis3 { sign: -1i32, axis: Axis3::X })
        } else if v.x == 0 && v.y == 1 && v.z == 0 {
            Some(SignedAxis3 { sign: 1, axis: Axis3::Y })
        } else if v.x == 0 && v.y == -1 && v.z == 0 {
            Some(SignedAxis3 { sign: -1i32, axis: Axis3::Y })
        } else if v.x == 0 && v.y == 0 && v.z == 1 {
            Some(SignedAxis3 { sign: 1, axis: Axis3::Z })
        } else if v.x == 0 && v.y == 0 && v.z == -1 {
            Some(SignedAxis3 { sign: -1i32, axis: Axis3::Z })
        } else {
            None
        }
    }

    pub fn from_vector(v: Point3i) -> (r: Option<SignedAxis3>)
        ensures
            r == Self::from_vector_spec(v),
    {
        if v.x == 1 && v.y == 0 && v.z == 0 {
            Some(SignedAxis3 { sign: 1, axis: Axis3::X })
        } else if v.x == -1 && v.y == 0 && v.z == 0 {
            Some(SignedAxis3 { sign: -1, axis: Axis3::X })
        } else if v.x == 0 && v.y == 1 && v.z == 0 {
            Some(SignedAxis3 { sign: 1, axis: Axis3::Y })
        } else if v.x == 0 && v.y == -1 && v.z == 0 {
            Some(SignedAxis3 { sign: -1, axis: Axis3::Y })
        } else if v.x == 0 && v.y == 0 && v.z == 1 {
            Some(SignedAxis3 { sign: 1, axis: Axis3::Z })
        } else if v.x == 0 && v.y == 0 && v.z == -1 {
            Some(SignedAxis3 { sign: -1, axis: Axis3::Z })
        } else {
            None
        }
    }
}

/// The largest coordinate magnitude of a point in the edited world: half the `i32` range, so
/// that the sum or difference of two coordinates still fits.
pub const COORD_LIMIT: i32 = 0x3fff_ffff;

impl Point3i {
    /// Every coordinate lies within `COORD_LIMIT` of zero.
    pub open spec fn in_bounds(self) -> bool {
        &&& -COORD_LIMIT <= self.x <= COORD_LIMIT
        &&& -COORD_LIMIT <= self.y <= COORD_LIMIT
        &&& -COORD_LIMIT <= self.z <= COORD_LIMIT
    }

    pub fn new(x: i32, y: i32, z: i32) -> (r: Point3i)
        ensures
            r == (Point3i { x, y, z }),
    {
        Point3i { x, y, z }
    }

    pub fn fill(v: i32) -> (r: Point3i)
        ensures
            r == (Point3i { x: v, y: v, z: v }),
    {
        Point3i { x: v, y: v, z: v }
    }

    /// The component of this point along `axis`.
    pub fn axis_component(&self, axis: Axis3) -> (r: i32)
        ensures
            r == coord(*self, axis),
    {
        match axis {
            Axis3::X => self.x,
            Axis3::Y => self.y,
            Axis3::Z => self.z,
        }
    }

    /// This point with its component along `axis` replaced by `v`.
    pub open spec fn with_axis_spec(self, axis: Axis3, v: i32) -> Point3i {
        match axis {
            Axis3::X => Point3i { x: v, ..self },
            Axis3::Y => Point3i { y: v, ..self },
            Axis3::Z => Point3i { z: v, ..self },
        }
    }

    /// This point with its component along `axis` replaced by `v`.
    pub fn with_axis_component(&self, axis: Axis3, v: i32) -> (r: Point3i)
        ensures
            r == self.with_axis_spec(axis, v),
            coord(r, axis) == v,
            forall|a: Axis3| a != axis ==> coord(r, a) == coord(*self, a),
    {
        match axis {
            Axis3::X => Point3i { x: v, ..*self },
            Axis3::Y => Point3i { y: v, ..*self },
            Axis3::Z => Point3i { z: v, ..*self },
        }
    }

    /// The componentwise minimum of two points.
    pub open spec fn meet_spec(self, o: Point3i) -> Point3i {
        Point3i {
            x: min(self.x as int, o.x as int) as i32,
            y: min(self.y as int, o.y as int) as i32,
            z: min(self.z as int, o.z as int) as i32,
        }
    }

    /// The componentwise maximum of two points.
    pub open spec fn join_spec(self, o: Point3i) -> Point3i {
        Point3i {
            x: max(self.x as int, o.x as int) as i32,
            y: max(self.y as int, o.y as int) as i32,
            z: max(self.z as int, o.z as int) as i32,
        }
    }

    /// The componentwise minimum of two points.
    pub fn meet(&self, o: &Point3i) -> (r: Point3i)
        ensures
            r == self.meet_spec(*o),
            forall|a: Axis3| coord(r, a) == min(coord(*self, a), coord(*o, a)),
    {
        Point3i {
            x: if self.x <= o.x { self.x } else { o.x },
            y: if self.y <= o.y { self.y } else { o.y },
            z: if self.z <= o.z { self.z } else { o.z },
        }
    }

    /// The componentwise maximum of two points.
    pub fn join(&self, o: &Point3i) -> (r: Point3i)
        ensures
            r == self.join_spec(*o),
            forall|a: Axis3| coord(r, a) == max(coord(*self, a), coord(*o, a)),
    {
        Point3i {
            x: if self.x >= o.x { self.x } else { o.x },
            y: if self.y >= o.y { self.y } else { o.y },
            z: if self.z >= o.z { self.z } else { o.z },
        }
    }
}

pub open spec fn min(a: int, b: int) -> int {
    if a <= b { a } else { b }
}

pub open spec fn max(a: int, b: int) -> int {
    if a >= b { a } else { b }
}

/// An axis-aligned box of voxels: `minimum` is its least corner and `shape` its size along
/// each axis.
#[derive(Clone, Copy, Debug, PartialEq, Eq, Structural)]
pub struct Extent3i {
    pub minimum: Point3i,
    pub shape: Point3i,
}

/// Whether `x` lies in the half-open range `[lo, lo + len)`.
pub open spec fn in_range(x: int, lo: int, len: int) -> bool {
    lo <= x < lo + len
}

impl Extent3i {
    /// Every point of the extent, and the point one past its maximum, has `i32` coordinates.
    pub open spec fn wf(self) -> bool {
        &&& self.shape.x >= 0 && self.shape.y >= 0 && self.shape.z >= 0
        &&& self.minimum.x + self.shape.x <= i32::MAX
        &&& self.minimum.y + self.shape.y <= i32::MAX
        &&& self.minimum.z + self.shape.z <= i32::MAX
    }

    /// Every point of the extent is in bounds.
    pub open spec fn in_bounds(self) -> bool {
        &&& self.shape.x >= 0 && self.shape.y >= 0 && self.shape.z >= 0
        &&& self.minimum.in_bounds()
        &&& self.minimum.x + self.shape.x <= COORD_LIMIT + 1
        &&& self.minimum.y + self.shape.y <= COORD_LIMIT + 1
        &&& self.minimum.z + self.shape.z <= COORD_LIMIT + 1
    }

    pub open spec fn contains_spec(self, p: Point3i) -> bool {
        &&& in_range(p.x as int, self.minimum.x as int, self.shape.x as int)
        &&& in_range(p.y as int, self.minimum.y as int, self.shape.y as int)
        &&& in_range(p.z as int, self.minimum.z as int, self.shape.z as int)
    }

    /// The greatest corner, `minimum + shape - 1`.
    pub open spec fn max_spec(self) -> Point3i {
        Point3i {
            x: (self.minimum.x + self.shape.x - 1) as i32,
            y: (self.minimum.y + self.shape.y - 1) as i32,
            z: (self.minimum.z + self.shape.z - 1) as i32,
        }
    }

    pub fn from_min_and_shape(minimum: Point3i, shape: Point3i) -> (r: Extent3i)
        ensures
            r == (Extent3i { minimum, shape }),
    {
        Extent3i { minimum, shape }
    }

    /// The extent whose least corner is `minimum` and greatest corner is `maximum`, or an empty
    /// shape along any axis where `maximum` lies below `minimum`.
    pub open spec fn min_and_max_spec(minimum: Point3i, maximum: Point3i) -> Extent3i {
        Extent3i {
            minimum,
            shape: Point3i {
                x: max(0, maximum.x - minimum.x + 1) as i32,
                y: max(0, maximum.y - minimum.y + 1) as i32,
                z: max(0, maximum.z - minimum.z + 1) as i32,
            },
        }
    }

    /// The extent whose least corner is `minimum` and greatest corner is `maximum`, or an empty
    /// shape along any axis where `maximum` lies below `minimum`.
    pub fn from_min_and_max(minimum: Point3i, maximum: Point3i) -> (r: Extent3i)
        requires
            maximum.x < i32::MAX && maximum.y < i32::MAX && maximum.z < i32::MAX,
            maximum.x - minimum.x < i32::MAX,
            maximum.y - minimum.y < i32::MAX,
            maximum.z - minimum.z < i32::MAX,
        ensures
            r.wf(),
            r == Extent3i::min_and_max_spec(minimum, maximum),
            r.minimum == minimum,
            forall|a: Axis3| coord(r.shape, a) == max(0, coord(maximum, a) - coord(minimum, a) + 1),
    {
        let sx: i32 = if maximum.x >= minimum.x { ((maximum.x as i64) - (minimum.x as i64) + 1) as i32 } else { 0 };
        let sy: i32 = if maximum.y >= minimum.y { ((maximum.y as i64) - (minimum.y as i64) + 1) as i32 } else { 0 };
        let sz: i32 = if maximum.z >= minimum.z { ((maximum.z as i64) - (minimum.z as i64) + 1) as i32 } else { 0 };
        Extent3i { minimum, shape: Point3i { x: sx, y: sy, z: sz } }
    }

    /// The smallest extent holding both corners.
    pub open spec fn corners_spec(p1: Point3i, p2: Point3i) -> Extent3i {
        let lo = Point3i {
            x: min(p1.x as int, p2.x as int) as i32,
            y: min(p1.y as int, p2.y as int) as i32,
            z: min(p1.z as int, p2.z as int) as i32,
        };
        let hi = Point3i {
            x: max(p1.x as int, p2.x as int) as i32,
            y: max(p1.y as int, p2.y as int) as i32,
            z: max(p1.z as int, p2.z as int) as i32,
        };
        Extent3i {
            minimum: lo,
            shape: Point3i {
                x: (hi.x - lo.x + 1) as i32,
                y: (hi.y - lo.y + 1) as i32,
                z: (hi.z - lo.z + 1) as i32,
            },
        }
    }

    /// The smallest extent holding both corners.
    pub fn from_corners(p1: Point3i, p2: Point3i) -> (r: Extent3i)
        requires
            p1.x < i32::MAX && p1.y < i32::MAX && p1.z < i32::MAX,
            p2.x < i32::MAX && p2.y < i32::MAX && p2.z < i32::MAX,
            -i32::MAX < p1.x - p2.x < i32::MAX,
            -i32::MAX < p1.y - p2.y < i32::MAX,
            -i32::MAX < p1.z - p2.z < i32::MAX,
        ensures
            r.wf(),
            r == Extent3i::corners_spec(p1, p2),
            forall|a: Axis3| coord(r.minimum, a) == min(coord(p1, a), coord(p2, a)),
            forall|a: Axis3| coord(r.max_spec(), a) == max(coord(p1, a), coord(p2, a)),
            forall|p: Point3i| r.contains_spec(p) <==> forall|a: Axis3|
                min(coord(p1, a), coord(p2, a)) <= #[trigger] coord(p, a) <= max(coord(p1, a), coord(p2, a)),
    {
        let lo = p1.meet(&p2);
        let hi = p1.join(&p2);
        assert(coord(lo, Axis3::X) == lo.x && coord(hi, Axis3::X) == hi.x);
        assert(coord(lo, Axis3::Y) == lo.y && coord(hi, Axis3::Y) == hi.y);
        assert(coord(lo, Axis3::Z) == lo.z && coord(hi, Axis3::Z) == hi.z);
        let r = Extent3i::from_min_and_max(lo, hi);
        assert forall|p: Point3i| r.contains_spec(p) <==> forall|a: Axis3|
            min(coord(p1, a), coord(p2, a)) <= #[trigger] coord(p, a) <= max(coord(p1, a), coord(p2, a)) by {
            assert(coord(p, Axis3::X) == p.x && coord(p, Axis3::Y) == p.y && coord(p, Axis3::Z) == p.z);
            assert(coord(lo, Axis3::X) == lo.x && coord(hi, Axis3::X) == hi.x);
            assert(coord(lo, Axis3::Y) == lo.y && coord(hi, Axis3::Y) == hi.y);
            assert(coord(lo, Axis3::Z) == lo.z && coord(hi, Axis3::Z) == hi.z);
            assert(coord(r.shape, Axis3::X) == r.shape.x);
            assert(coord(r.shape, Axis3::Y) == r.shape.y);
            assert(coord(r.shape, Axis3::Z) == r.shape.z);
        }
        assert(coord(lo, Axis3::X) == lo.x && coord(hi, Axis3::X) == hi.x);
        assert(coord(lo, Axis3::Y) == lo.y && coord(hi, Axis3::Y) == hi.y);
        assert(coord(lo, Axis3::Z) == lo.z && coord(hi, Axis3::Z) == hi.z);
        assert(coord(r.shape, Axis3::X) == r.shape.x);
        assert(coord(r.shape, Axis3::Y) == r.shape.y);
        assert(coord(r.shape, Axis3::Z) == r.shape.z);
        r
    }

    /// The greatest corner, `minimum + shape - 1`.
    pub fn max(&self) -> (r: Point3i)
        requires
            self.wf(),
            self.minimum.x > i32::MIN && self.minimum.y > i32::MIN && self.minimum.z > i32::MIN,
        ensures
            r == self.max_spec(),
    {
        Point3i {
            x: self.minimum.x + self.shape.x - 1,
            y: self.minimum.y + self.shape.y - 1,
            z: self.minimum.z + self.shape.z - 1,
        }
    }

    pub fn contains(&self, p: Point3i) -> (r: bool)
        ensures
            r == self.contains_spec(p),
    {
        let dx = p.x as i64 - self.minimum.x as i64;
        let dy = p.y as i64 - self.minimum.y as i64;
        let dz = p.z as i64 - self.minimum.z as i64;
        0 <= dx && dx < self.shape.x as i64 && 0 <= dy && dy < self.shape.y as i64 && 0 <= dz
            && dz < self.shape.z as i64
    }
}

/// One voxel: its material tag (`0` is empty) and its signed distance (negative inside
/// solid).
#[derive(Clone, Copy, Debug, PartialEq, Eq, Structural)]
pub struct Voxel {
    pub voxel_type: u8,
    pub distance: i8,
}

/// The value of every voxel in an absent chunk: empty, at the greatest positive distance.
pub open spec fn ambient_voxel() -> Voxel {
    Voxel { voxel_type: 0, distance: 127 }
}

impl Voxel {
    pub fn ambient() -> (r: Voxel)
        ensures
            r == ambient_voxel(),
    {
        Voxel { voxel_type: 0, distance: 127 }
    }
}

/// One face of a voxel: its coordinate and the outward normal of the face.
#[derive(Clone, Copy, Debug, PartialEq, Eq, Structural)]
pub struct VoxelFace {
    pub point: Point3i,
    pub normal: SignedAxis3,
}

} // verus!
