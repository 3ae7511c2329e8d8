//! Positions in space with fixed-point components.

use crate::fixed::{almost, clip, fadd, fsub, in_range, sat_add, sat_sub, spec_almost};
use crate::geometry::vector::Vector;
use vstd::prelude::*;

verus! {

/// A position in space; components are fixed-point scalars.
#[derive(Clone, Copy, Debug, PartialEq, Eq, Structural)]
pub struct Point {
    pub x: i128,
    pub y: i128,
    pub z: i128,
}

impl Point {
    /// All components lie in the storable scalar range.
    pub open spec fn wf(self) -> bool {
        &&& in_range(self.x as int)
        &&& in_range(self.y as int)
        &&& in_range(self.z as int)
    }

    /// The point with the given components, saturated to the scalar range.
    pub fn at(x: i128, y: i128, z: i128) -> (r: Point)
        ensures
            r.x as int == clip(x as int),
            r.y as int == clip(y as int),
            r.z as int == clip(z as int),
            r.wf(),
    {
        Point {
            x: crate::fixed::clamp_lim(x),
            y: crate::fixed::clamp_lim(y),
            z: crate::fixed::clamp_lim(z),
        }
    }

    /// The origin.
    pub fn origin() -> (r: Point)
        ensures
            r.x == 0 && r.y == 0 && r.z == 0,
            r.wf(),
    {
        Point { x: 0, y: 0, z: 0 }
    }

    /// The point shifted by a vector.
    pub fn plus_vector(self, v: Vector) -> (r: Point)
        requires
            self.wf(),
            v.wf(),
        ensures
            r == spec_add_pv(self, v),
            r.x as int == sat_add(self.x as int, v.x as int),
            r.y as int == sat_add(self.y as int, v.y as int),
            r.z as int == sat_add(self.z as int, v.z as int),
            r.wf(),
    {
        Point { x: fadd(self.x, v.x), y: fadd(self.y, v.y), z: fadd(self.z, v.z) }
    }

    /// The point shifted against a vector.
    pub fn minus_vector(self, v: Vector) -> (r: Point)
        requires
            self.wf(),
            v.wf(),
        ensures
            r == spec_sub_pv(self, v),
            r.x as int == sat_sub(self.x as int, v.x as int),
            r.y as int == sat_sub(self.y as int, v.y as int),
            r.z as int == sat_sub(self.z as int, v.z as int),
            r.wf(),
    {
        Point { x: fsub(self.x, v.x), y: fsub(self.y, v.y), z: fsub(self.z, v.z) }
    }

    /// The displacement from another point to this one.
    pub fn minus_point(self, o: Point) -> (r: Vector)
        requires
            self.wf(),
            o.wf(),
        ensures
            r == spec_sub_pp(self, o),
            r.x as int == sat_sub(self.x as int, o.x as int),
            r.y as int == sat_sub(self.y as int, o.y as int),
            r.z as int == sat_sub(self.z as int, o.z as int),
            r.wf(),
    {
        Vector { x: fsub(self.x, o.x), y: fsub(self.y, o.y), z: fsub(self.z, o.z) }
    }

    /// Approximate equality of all three components.
    pub fn almost(self, o: Point) -> (r: bool)
        requires
            self.wf(),
            o.wf(),
        ensures
            r == spec_almost_point(self, o),
    {
        almost(self.x, o.x) && almost(self.y, o.y) && almost(self.z, o.z)
    }
}

/// The point shifted by a vector.
pub open spec fn spec_add_pv(p: Point, v: Vector) -> Point {
    Point {
        x: sat_add(p.x as int, v.x as int) as i128,
        y: sat_add(p.y as int, v.y as int) as i128,
        z: sat_add(p.z as int, v.z as int) as i128,
    }
}

/// The point shifted against a vector.
pub open spec fn spec_sub_pv(p: Point, v: Vector) -> Point {
    Point {
        x: sat_sub(p.x as int, v.x as int) as i128,
        y: sat_sub(p.y as int, v.y as int) as i128,
        z: sat_sub(p.z as int, v.z as int) as i128,
    }
}

/// The displacement between two points.
pub open spec fn spec_sub_pp(p: Point, o: Point) -> Vector {
    Vector {
        x: sat_sub(p.x as int, o.x as int) as i128,
        y: sat_sub(p.y as int, o.y as int) as i128,
        z: sat_sub(p.z as int, o.z as int) as i128,
    }
}

/// Componentwise approximate equality.
pub open spec fn spec_almost_point(a: Point, b: Point) -> bool {
    &&& spec_almost(a.x as int, b.x as int)
    &&& spec_almost(a.y as int, b.y as int)
    &&& spec_almost(a.z as int, b.z as int)
}

} // verus!
