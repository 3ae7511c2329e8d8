//! Rays: an origin point and a direction vector.

use crate::fixed::{in_range, sat_mul};
use crate::geometry::matrix::{spec_mul_point, spec_mul_vector, Matrix};
use crate::geometry::point::{spec_add_pv, spec_sub_pp, Point};
use crate::geometry::vector::{spec_scale_v, Vector};
use vstd::prelude::*;

verus! {

/// A ray through the scene.
#[derive(Clone, Copy, Debug, PartialEq, Eq, Structural)]
pub struct Ray {
    pub origin: Point,
    pub direction: Vector,
}

/// Where a ray is after travelling for time `t`.
pub open spec fn spec_position(r: Ray, t: int) -> Point {
    spec_add_pv(r.origin, spec_scale_v(r.direction, t))
}

/// A ray carried through an affine transform: both parts are mapped, the
/// origin as a point, the direction as a vector.
pub open spec fn spec_transform_ray(r: Ray, m: Matrix) -> Ray {
    Ray { origin: spec_mul_point(m, r.origin), direction: spec_mul_vector(m, r.direction) }
}

impl Ray {
    /// Both parts hold storable scalars.
    pub open spec fn wf(self) -> bool {
        self.origin.wf() && self.direction.wf()
    }

    /// The origin of the ray.
    pub open spec fn spec_origin(self) -> Point {
        self.origin
    }

    /// The direction of the ray.
    pub open spec fn spec_direction(self) -> Vector {
        self.direction
    }

    /// A ray from `origin` toward `direction`.
    pub fn new(origin: Point, direction: Vector) -> (r: Ray)
        requires
            origin.wf(),
            direction.wf(),
        ensures
            r == (Ray { origin, direction }),
            r.wf(),
    {
        Ray { origin, direction }
    }

    /// The position of the ray after the specified amount of time.
    pub fn position(&self, time: i128) -> (r: Point)
        requires
            self.wf(),
            in_range(time as int),
        ensures
            r == spec_position(*self, time as int),
            r.wf(),
    {
        self.origin.plus_vector(self.direction.scale(time))
    }

    /// The ray obtained by applying the supplied transformation.
    pub fn transform(&self, transformation: &Matrix) -> (r: Ray)
        requires
            self.wf(),
            transformation.wf(),
            transformation.is4x4(),
        ensures
            r == spec_transform_ray(*self, *transformation),
            r.wf(),
    {
        Ray {
            origin: transformation.mul_point(self.origin),
            direction: transformation.mul_vector(self.direction),
        }
    }

    /// The direction of the ray.
    pub fn direction(&self) -> (r: Vector)
        ensures
            r == self.spec_direction(),
    {
        self.direction
    }

    /// The origin of the ray.
    pub fn origin(&self) -> (r: Point)
        ensures
            r == self.spec_origin(),
    {
        self.origin
    }
}

/// How far a ray travels is where it ends up: for every ray and time, the
/// displacement from the origin to `position(t)` is the direction scaled by
/// `t`, whenever no component of the sum saturates.
pub proof fn lemma_position_minus_origin(r: Ray, t: int)
    requires
        r.wf(),
        in_range(t),
        in_range(r.origin.x + sat_mul(r.direction.x as int, t)),
        in_range(r.origin.y + sat_mul(r.direction.y as int, t)),
        in_range(r.origin.z + sat_mul(r.direction.z as int, t)),
    ensures
        spec_sub_pp(spec_position(r, t), r.spec_origin()) == spec_scale_v(r.spec_direction(), t),
{
}

} // verus!
