//! The unit-radius cylinder about the y-axis, optionally capped.

use crate::fixed::{
    absi, clip, fabs, fadd, fdiv, fmul, fneg, fsqrt, fsub, in_range, sat_add, sat_div, sat_mul,
    sat_neg, sat_sqrt, sat_sub, EPS, LIM, SCALE,
};
use crate::geometry::point::Point;
use crate::geometry::vector::Vector;
use crate::tracing::ray::Ray;
use vstd::prelude::*;

verus! {

/// A cylinder of unit radius about the y-axis, walls between `min` and
/// `max`, optionally closed by end caps.
#[derive(Clone, Copy, Debug, PartialEq, Eq, Structural)]
pub struct Cylinder {
    pub min: i128,
    pub max: i128,
    pub capped: bool,
}

/// Whether the ray is within the unit radius at time `t` (an end-cap hit).
pub open spec fn spec_check_cap(r: Ray, t: int) -> bool {
    let x = sat_add(r.origin.x as int, sat_mul(t, r.direction.x as int));
    let z = sat_add(r.origin.z as int, sat_mul(t, r.direction.z as int));
    sat_add(sat_mul(x, x), sat_mul(z, z)) <= SCALE
}

/// The end-cap intersection times: one candidate per cap, kept when the hit
/// lies within the radius.  An uncapped cylinder, or a ray running (almost)
/// level, yields none.
pub open spec fn spec_cap_times(c: Cylinder, r: Ray) -> Seq<int> {
    if !c.capped || absi(r.direction.y as int) < EPS {
        Seq::empty()
    } else {
        let t0 = sat_div(sat_sub(c.min as int, r.origin.y as int), r.direction.y as int);
        let t1 = sat_div(sat_sub(c.max as int, r.origin.y as int), r.direction.y as int);
        let s0: Seq<int> = if spec_check_cap(r, t0) {
            seq![t0]
        } else {
            Seq::empty()
        };
        if spec_check_cap(r, t1) {
            s0.push(t1)
        } else {
            s0
        }
    }
}

/// The local intersection times of a ray with the cylinder: cap hits first,
/// then wall hits whose height lies strictly between `min` and `max`.
pub open spec fn spec_cylinder_times(c: Cylinder, r: Ray) -> Seq<int> {
    let dx = r.direction.x as int;
    let dz = r.direction.z as int;
    let ox = r.origin.x as int;
    let oz = r.origin.z as int;
    let a = sat_add(sat_mul(dx, dx), sat_mul(dz, dz));
    if a < EPS {
        spec_cap_times(c, r)
    } else {
        let b = sat_add(
            sat_mul(sat_mul(2 * (SCALE as int), dx), ox),
            sat_mul(sat_mul(2 * (SCALE as int), dz), oz),
        );
        let cc = sat_sub(sat_add(sat_mul(ox, ox), sat_mul(oz, oz)), SCALE as int);
        let disc = sat_sub(sat_mul(b, b), sat_mul(sat_mul(4 * (SCALE as int), a), cc));
        if disc < 0 {
            Seq::empty()
        } else {
            let sq = sat_sqrt(disc);
            let ta = sat_div(sat_sub(sat_neg(b), sq), sat_add(a, a));
            let tb = sat_div(sat_add(sat_neg(b), sq), sat_add(a, a));
            let t0 = if ta <= tb {
                ta
            } else {
                tb
            };
            let t1 = if ta <= tb {
                tb
            } else {
                ta
            };
            let y0 = sat_add(r.origin.y as int, sat_mul(t0, r.direction.y as int));
            let y1 = sat_add(r.origin.y as int, sat_mul(t1, r.direction.y as int));
            let caps = spec_cap_times(c, r);
            let w0: Seq<int> = if c.min < y0 && y0 < c.max {
                caps.push(t0)
            } else {
                caps
            };
            if c.min < y1 && y1 < c.max {
                w0.push(t1)
            } else {
                w0
            }
        }
    }
}

/// The local normal: straight up or down within a cap's radius near an end,
/// otherwise radially out from the axis.
pub open spec fn spec_cylinder_normal(c: Cylinder, p: Point) -> Vector {
    let dist = sat_add(sat_mul(p.x as int, p.x as int), sat_mul(p.z as int, p.z as int));
    if dist < SCALE && p.y as int >= sat_sub(c.max as int, EPS as int) {
        Vector { x: 0, y: SCALE, z: 0 }
    } else if dist < SCALE && p.y as int <= sat_add(c.min as int, EPS as int) {
        Vector { x: 0, y: ((-SCALE) as i128), z: 0 }
    } else {
        Vector { x: p.x, y: 0, z: p.z }
    }
}

/// Whether the ray is within the unit radius at time `t`.
fn check_cap(ray: &Ray, time: i128) -> (r: bool)
    requires
        ray.wf(),
        in_range(time as int),
    ensures
        r == spec_check_cap(*ray, time as int),
{
    let x = fadd(ray.origin().x, fmul(time, ray.direction().x));
    let z = fadd(ray.origin().z, fmul(time, ray.direction().z));
    fadd(fmul(x, x), fmul(z, z)) <= SCALE
}

impl Cylinder {
    /// Both bounds are storable.
    pub open spec fn wf(self) -> bool {
        in_range(self.min as int) && in_range(self.max as int)
    }

    /// An open cylinder with walls between `min` and `max`.
    pub fn new(min: i128, max: i128) -> (r: Cylinder)
        ensures
            r.min as int == clip(min as int),
            r.max as int == clip(max as int),
            !r.capped,
            r.wf(),
    {
        Cylinder {
            min: crate::fixed::clamp_lim(min),
            max: crate::fixed::clamp_lim(max),
            capped: false,
        }
    }

    /// The cylinder with walls as far as scalars reach.
    pub fn infinite() -> (r: Cylinder)
        ensures
            r.min == -LIM && r.max == LIM && !r.capped,
            r.wf(),
    {
        Cylinder { min: -LIM, max: LIM, capped: false }
    }

    /// The same cylinder, closed by end caps.
    pub fn capped(self) -> (r: Cylinder)
        requires
            self.wf(),
        ensures
            r.min == self.min && r.max == self.max && r.capped,
            r.wf(),
    {
        Cylinder { min: self.min, max: self.max, capped: true }
    }

    /// The end-cap intersection times.
    fn intersect_caps(&self, ray: &Ray) -> (r: Vec<i128>)
        requires
            self.wf(),
            ray.wf(),
        ensures
            r@.map_values(|t: i128| t as int) =~= spec_cap_times(*self, *ray),
            forall|k: int| 0 <= k < r@.len() ==> in_range(#[trigger] r@[k] as int),
    {
        let mut out: Vec<i128> = Vec::new();
        if !self.capped {
            return out;
        }
        let dy = ray.direction().y;
        if fabs(dy) < EPS {
            return out;
        }
        let t0 = fdiv(fsub(self.min, ray.origin().y), dy);
        let t1 = fdiv(fsub(self.max, ray.origin().y), dy);
        if check_cap(ray, t0) {
            out.push(t0);
        }
        if check_cap(ray, t1) {
            out.push(t1);
        }
        out
    }

    /// The times at which a local-space ray meets the cylinder.
    pub fn intersect(&self, ray: &Ray) -> (r: Vec<i128>)
        requires
            self.wf(),
            ray.wf(),
        ensures
            r@.map_values(|t: i128| t as int) =~= spec_cylinder_times(*self, *ray),
            forall|k: int| 0 <= k < r@.len() ==> in_range(#[trigger] r@[k] as int),
    {
        let o = ray.origin();
        let d = ray.direction();
        let a = fadd(fmul(d.x, d.x), fmul(d.z, d.z));
        if a < EPS {
            return self.intersect_caps(ray);
        }
        let b = fadd(fmul(fmul(2 * SCALE, d.x), o.x), fmul(fmul(2 * SCALE, d.z), o.z));
        let cc = fsub(fadd(fmul(o.x, o.x), fmul(o.z, o.z)), SCALE);
        let disc = fsub(fmul(b, b), fmul(fmul(4 * SCALE, a), cc));
        if disc < 0 {
            return Vec::new();
        }
        proof {
            crate::geometry::vector::lemma_sat_sq_nonneg(d.x as int);
            crate::geometry::vector::lemma_sat_sq_nonneg(d.z as int);
        }
        let sq = fsqrt(disc);
        let ta = fdiv(fsub(fneg(b), sq), fadd(a, a));
        let tb = fdiv(fadd(fneg(b), sq), fadd(a, a));
        let (t0, t1): (i128, i128) = if ta <= tb {
            (ta, tb)
        } else {
            (tb, ta)
        };
        let y0 = fadd(o.y, fmul(t0, d.y));
        let y1 = fadd(o.y, fmul(t1, d.y));
        let mut out = self.intersect_caps(ray);
        if self.min < y0 && y0 < self.max {
            out.push(t0);
        }
        if self.min < y1 && y1 < self.max {
            out.push(t1);
        }
        out
    }

    /// The cylinder's normal at a local-space point.
    pub fn normal_at(&self, point: Point) -> (r: Vector)
        requires
            self.wf(),
            point.wf(),
        ensures
            r == spec_cylinder_normal(*self, point),
            r.wf(),
    {
        let dist = fadd(fmul(point.x, point.x), fmul(point.z, point.z));
        if dist < SCALE && point.y >= fsub(self.max, EPS) {
            Vector { x: 0, y: SCALE, z: 0 }
        } else if dist < SCALE && point.y <= fadd(self.min, EPS) {
            Vector { x: 0, y: ((-SCALE) as i128), z: 0 }
        } else {
            Vector { x: point.x, y: 0, z: point.z }
        }
    }
}

} // verus!
