//! The xz plane.

use crate::fixed::{fdiv, fneg, sat_div, sat_neg, EPS, SCALE};
use crate::geometry::point::Point;
use crate::geometry::vector::Vector;
use crate::tracing::ray::Ray;
use vstd::prelude::*;

verus! {

/// The local intersection times of a ray with the xz plane: one time where
/// the ray crosses `y == 0`, nothing when it runs (almost) parallel.
pub open spec fn spec_plane_times(r: Ray) -> Seq<int> {
    if crate::fixed::absi(r.direction.y as int) < EPS {
        Seq::empty()
    } else {
        seq![sat_div(sat_neg(r.origin.y as int), r.direction.y as int)]
    }
}

/// The local normal of the plane: straight up, everywhere.
pub open spec fn spec_plane_normal(p: Point) -> Vector {
    Vector { x: 0, y: SCALE, z: 0 }
}

/// The plane `y == 0`.
#[derive(Clone, Copy, Debug, PartialEq, Eq, Structural)]
pub struct Plane {}

impl Plane {
    /// The xz plane.
    pub fn new() -> (r: Plane) {
        Plane {}
    }

    /// The times at which a local-space ray meets the plane.
    pub fn intersect(&self, ray: &Ray) -> (r: Vec<i128>)
        requires
            ray.wf(),
        ensures
            r@.map_values(|t: i128| t as int) =~= spec_plane_times(*ray),
            forall|k: int| 0 <= k < r@.len() ==> crate::fixed::in_range(#[trigger] r@[k] as int),
    {
        let dy = ray.direction().y;
        let mut out: Vec<i128> = Vec::new();
        if crate::fixed::fabs(dy) < EPS {
            return out;
        }
        let time = fdiv(fneg(ray.origin().y), dy);
        out.push(time);
        out
    }

    /// The plane's normal at any local-space point.
    pub fn normal_at(&self, point: Point) -> (r: Vector)
        ensures
            r == spec_plane_normal(point),
            r.wf(),
    {
        Vector { x: 0, y: SCALE, z: 0 }
    }
}

} // verus!
