//! The unit sphere centered at the origin.

use crate::fixed::{fadd, fdiv, fmul, fneg, fsqrt, fsub, sat_add, sat_div, sat_mul, sat_neg,
    sat_sqrt, sat_sub, SCALE};
use crate::geometry::point::Point;
use crate::geometry::vector::{spec_dot, Vector};
use crate::tracing::ray::Ray;
use vstd::prelude::*;

verus! {

/// The local intersection times of a ray with the unit sphere: the roots of
/// the quadratic, or nothing when the ray misses or is degenerate.
pub open spec fn spec_sphere_times(r: Ray) -> Seq<int> {
    let l = Vector { x: r.origin.x, y: r.origin.y, z: r.origin.z };
    let a = spec_dot(r.direction, r.direction);
    let d1 = spec_dot(r.direction, l);
    let b = sat_add(d1, d1);
    let c = sat_sub(spec_dot(l, l), SCALE as int);
    let disc = sat_sub(sat_mul(b, b), sat_mul(sat_mul(4 * (SCALE as int), a), c));
    if a == 0 || disc < 0 {
        Seq::empty()
    } else {
        let sq = sat_sqrt(disc);
        let t1 = sat_div(sat_sub(sat_neg(b), sq), sat_add(a, a));
        let t2 = sat_div(sat_add(sat_neg(b), sq), sat_add(a, a));
        seq![t1, t2]
    }
}

/// The local normal of the unit sphere: the hit point as a vector.
pub open spec fn spec_sphere_normal(p: Point) -> Vector {
    Vector { x: p.x, y: p.y, z: p.z }
}

/// The unit sphere centered at the origin.
#[derive(Clone, Copy, Debug, PartialEq, Eq, Structural)]
pub struct Sphere {}

impl Sphere {
    /// The unit sphere.
    pub fn new() -> (r: Sphere) {
        Sphere {}
    }

    /// The times at which a local-space ray meets the sphere.
    pub fn intersect(&self, ray: &Ray) -> (r: Vec<i128>)
        requires
            ray.wf(),
        ensures
            r@.map_values(|t: i128| t as int) =~= spec_sphere_times(*ray),
            forall|k: int| 0 <= k < r@.len() ==> crate::fixed::in_range(#[trigger] r@[k] as int),
    {
        let o = ray.origin();
        let sphere_to_ray = Vector { x: o.x, y: o.y, z: o.z };
        let dir = ray.direction();
        let a = dir.dot(dir);
        let d1 = dir.dot(sphere_to_ray);
        let b = fadd(d1, d1);
        let c = fsub(sphere_to_ray.dot(sphere_to_ray), SCALE);
        let disc = fsub(fmul(b, b), fmul(fmul(4 * SCALE, a), c));
        let mut out: Vec<i128> = Vec::new();
        if a == 0 || disc < 0 {
            return out;
        }
        let sq = fsqrt(disc);
        let t1 = fdiv(fsub(fneg(b), sq), fadd(a, a));
        let t2 = fdiv(fadd(fneg(b), sq), fadd(a, a));
        proof {
            assert(a as int + a as int != 0) by {
                crate::geometry::vector::lemma_norm2_nonneg(dir);
            }
        }
        out.push(t1);
        out.push(t2);
        out
    }

    /// The sphere's normal at a local-space point.
    pub fn normal_at(&self, point: Point) -> (r: Vector)
        requires
            point.wf(),
        ensures
            r == spec_sphere_normal(point),
            r.wf(),
    {
        Vector { x: point.x, y: point.y, z: point.z }
    }
}

} // verus!
