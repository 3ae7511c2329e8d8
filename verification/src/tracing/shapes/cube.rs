//! The axis-aligned cube from -1 to 1 on each axis.

use crate::fixed::{
    absi, fabs, fdiv, fmax, fmin, fneg, fsub, in_range, sat_div, sat_sub, EPS, LIM, SCALE,
};
use crate::geometry::point::Point;
use crate::geometry::vector::Vector;
use crate::tracing::ray::Ray;
use vstd::prelude::*;

verus! {

/// The slab times of one axis: where the ray crosses the planes at -1 and 1,
/// in ascending order.  A (nearly) axis-parallel ray gets the saturation
/// bound with the numerator's sign, standing in for infinity.
pub open spec fn spec_check_axis(origin: int, direction: int) -> (int, int) {
    let tmin_num = sat_sub(-(SCALE as int), origin);
    let tmax_num = sat_sub(SCALE as int, origin);
    let pair = if absi(direction) >= EPS {
        (sat_div(tmin_num, direction), sat_div(tmax_num, direction))
    } else {
        (
            if tmin_num >= 0 {
                LIM as int
            } else {
                -LIM as int
            },
            if tmax_num >= 0 {
                LIM as int
            } else {
                -LIM as int
            },
        )
    };
    if pair.0 <= pair.1 {
        pair
    } else {
        (pair.1, pair.0)
    }
}

/// The larger of three scalars.
pub open spec fn spec_max3(a: int, b: int, c: int) -> int {
    let ab = if a >= b {
        a
    } else {
        b
    };
    if ab >= c {
        ab
    } else {
        c
    }
}

/// The smaller of three scalars.
pub open spec fn spec_min3(a: int, b: int, c: int) -> int {
    let ab = if a <= b {
        a
    } else {
        b
    };
    if ab <= c {
        ab
    } else {
        c
    }
}

/// The local intersection times of a ray with the cube: the tightest slab
/// window, or nothing when the slabs never overlap.
pub open spec fn spec_cube_times(r: Ray) -> Seq<int> {
    let xs = spec_check_axis(r.origin.x as int, r.direction.x as int);
    let ys = spec_check_axis(r.origin.y as int, r.direction.y as int);
    let zs = spec_check_axis(r.origin.z as int, r.direction.z as int);
    let tmin = spec_max3(xs.0, ys.0, zs.0);
    let tmax = spec_min3(xs.1, ys.1, zs.1);
    if tmin > tmax {
        Seq::empty()
    } else {
        seq![tmin, tmax]
    }
}

/// The local normal of the cube: the axis with the largest magnitude wins,
/// ties going to x then y.
pub open spec fn spec_cube_normal(p: Point) -> Vector {
    let ax = absi(p.x as int);
    let ay = absi(p.y as int);
    let az = absi(p.z as int);
    let maxc = spec_max3(ax, ay, az);
    if maxc == ax {
        Vector { x: p.x, y: 0, z: 0 }
    } else if maxc == ay {
        Vector { x: 0, y: p.y, z: 0 }
    } else {
        Vector { x: 0, y: 0, z: p.z }
    }
}

/// The axis-aligned unit cube.
#[derive(Clone, Copy, Debug, PartialEq, Eq, Structural)]
pub struct Cube {}

impl Cube {
    /// The unit cube.
    pub fn new() -> (r: Cube) {
        Cube {}
    }

    /// The slab times of one axis, in ascending order.
    fn check_axis(&self, origin: i128, direction: i128) -> (r: (i128, i128))
        requires
            in_range(origin as int),
            in_range(direction as int),
        ensures
            (r.0 as int, r.1 as int) == spec_check_axis(origin as int, direction as int),
            in_range(r.0 as int),
            in_range(r.1 as int),
    {
        let tmin_numerator = fsub(fneg(SCALE), origin);
        let tmax_numerator = fsub(SCALE, origin);
        let (tmin, tmax): (i128, i128) = if fabs(direction) >= EPS {
            (fdiv(tmin_numerator, direction), fdiv(tmax_numerator, direction))
        } else {
            (
                if tmin_numerator >= 0 {
                    LIM
                } else {
                    -LIM
                },
                if tmax_numerator >= 0 {
                    LIM
                } else {
                    -LIM
                },
            )
        };
        if tmin <= tmax {
            (tmin, tmax)
        } else {
            (tmax, tmin)
        }
    }

    /// The times at which a local-space ray meets the cube.
    pub fn intersect(&self, ray: &Ray) -> (r: Vec<i128>)
        requires
            ray.wf(),
        ensures
            r@.map_values(|t: i128| t as int) =~= spec_cube_times(*ray),
            forall|k: int| 0 <= k < r@.len() ==> in_range(#[trigger] r@[k] as int),
    {
        let o = ray.origin();
        let d = ray.direction();
        let (xmin, xmax) = self.check_axis(o.x, d.x);
        let (ymin, ymax) = self.check_axis(o.y, d.y);
        let (zmin, zmax) = self.check_axis(o.z, d.z);
        let tmin = fmax(fmax(xmin, ymin), zmin);
        let tmax = fmin(fmin(xmax, ymax), zmax);
        let mut out: Vec<i128> = Vec::new();
        if tmin > tmax {
            return out;
        }
        out.push(tmin);
        out.push(tmax);
        out
    }

    /// The cube's normal at a local-space point.
    pub fn normal_at(&self, point: Point) -> (r: Vector)
        requires
            point.wf(),
        ensures
            r == spec_cube_normal(point),
            r.wf(),
    {
        let ax = fabs(point.x);
        let ay = fabs(point.y);
        let az = fabs(point.z);
        let max_c = fmax(fmax(ax, ay), az);
        if max_c == ax {
            Vector { x: point.x, y: 0, z: 0 }
        } else if max_c == ay {
            Vector { x: 0, y: point.y, z: 0 }
        } else {
            Vector { x: 0, y: 0, z: point.z }
        }
    }
}

} // verus!
