//! Direction vectors with fixed-point components.

use crate::fixed::{
    absi, almost, clip, fadd, fdiv, fmul, fneg, fsqrt, fsub, in_range, is_sqrt, sat_add, sat_div,
    sat_mul, sat_neg, sat_sqrt, sat_sub, spec_almost,
};
use vstd::prelude::*;

verus! {

/// A direction in space; components are fixed-point scalars.
#[derive(Clone, Copy, Debug, PartialEq, Eq, Structural)]
pub struct Vector {
    pub x: i128,
    pub y: i128,
    pub z: i128,
}

/// The dot product, over the saturating scalar operations.
pub open spec fn spec_dot(a: Vector, b: Vector) -> int {
    sat_add(
        sat_add(sat_mul(a.x as int, b.x as int), sat_mul(a.y as int, b.y as int)),
        sat_mul(a.z as int, b.z as int),
    )
}

/// The squared length of a vector.
pub open spec fn spec_norm2(v: Vector) -> int {
    spec_dot(v, v)
}

/// The length of a vector.
pub open spec fn spec_magnitude(v: Vector) -> int {
    sat_sqrt(spec_norm2(v))
}

impl Vector {
    /// All components lie in the storable scalar range.
    pub open spec fn wf(self) -> bool {
        &&& in_range(self.x as int)
        &&& in_range(self.y as int)
        &&& in_range(self.z as int)
    }

    /// The vector with the given components, saturated to the scalar range.
    pub fn new(x: i128, y: i128, z: i128) -> (r: Vector)
        ensures
            r.x as int == clip(x as int),
            r.y as int == clip(y as int),
            r.z as int == clip(z as int),
            r.wf(),
    {
        Vector {
            x: crate::fixed::clamp_lim(x),
            y: crate::fixed::clamp_lim(y),
            z: crate::fixed::clamp_lim(z),
        }
    }

    /// The zero vector.
    pub fn zero() -> (r: Vector)
        ensures
            r.x == 0 && r.y == 0 && r.z == 0,
            r.wf(),
    {
        Vector { x: 0, y: 0, z: 0 }
    }

    /// Componentwise sum.
    pub fn plus(self, o: Vector) -> (r: Vector)
        requires
            self.wf(),
            o.wf(),
        ensures
            r == spec_add_vv(self, o),
            r.x as int == sat_add(self.x as int, o.x as int),
            r.y as int == sat_add(self.y as int, o.y as int),
            r.z as int == sat_add(self.z as int, o.z as int),
            r.wf(),
    {
        Vector { x: fadd(self.x, o.x), y: fadd(self.y, o.y), z: fadd(self.z, o.z) }
    }

    /// Componentwise difference.
    pub fn minus(self, o: Vector) -> (r: Vector)
        requires
            self.wf(),
            o.wf(),
        ensures
            r == spec_sub_vv(self, o),
            r.x as int == sat_sub(self.x as int, o.x as int),
            r.y as int == sat_sub(self.y as int, o.y as int),
            r.z as int == sat_sub(self.z as int, o.z as int),
            r.wf(),
    {
        Vector { x: fsub(self.x, o.x), y: fsub(self.y, o.y), z: fsub(self.z, o.z) }
    }

    /// The opposite vector.
    pub fn negate(self) -> (r: Vector)
        requires
            self.wf(),
        ensures
            r == spec_neg_v(self),
            r.x as int == sat_neg(self.x as int),
            r.y as int == sat_neg(self.y as int),
            r.z as int == sat_neg(self.z as int),
            r.wf(),
    {
        Vector { x: fneg(self.x), y: fneg(self.y), z: fneg(self.z) }
    }

    /// The vector scaled by a scalar factor.
    pub fn scale(self, s: i128) -> (r: Vector)
        requires
            self.wf(),
            in_range(s as int),
        ensures
            r == spec_scale_v(self, s as int),
            r.x as int == sat_mul(self.x as int, s as int),
            r.y as int == sat_mul(self.y as int, s as int),
            r.z as int == sat_mul(self.z as int, s as int),
            r.wf(),
    {
        Vector { x: fmul(self.x, s), y: fmul(self.y, s), z: fmul(self.z, s) }
    }

    /// The vector divided by a scalar.
    pub fn div_by(self, s: i128) -> (r: Vector)
        requires
            self.wf(),
            in_range(s as int),
            s != 0,
        ensures
            r.x as int == sat_div(self.x as int, s as int),
            r.y as int == sat_div(self.y as int, s as int),
            r.z as int == sat_div(self.z as int, s as int),
            r.wf(),
    {
        Vector { x: fdiv(self.x, s), y: fdiv(self.y, s), z: fdiv(self.z, s) }
    }

    /// The dot product.
    pub fn dot(self, o: Vector) -> (r: i128)
        requires
            self.wf(),
            o.wf(),
        ensures
            r as int == spec_dot(self, o),
            in_range(r as int),
    {
        fadd(fadd(fmul(self.x, o.x), fmul(self.y, o.y)), fmul(self.z, o.z))
    }

    /// The cross product.
    pub fn cross(self, o: Vector) -> (r: Vector)
        requires
            self.wf(),
            o.wf(),
        ensures
            r == spec_cross(self, o),
            r.x as int == sat_sub(
                sat_mul(self.y as int, o.z as int),
                sat_mul(self.z as int, o.y as int),
            ),
            r.y as int == sat_sub(
                sat_mul(self.z as int, o.x as int),
                sat_mul(self.x as int, o.z as int),
            ),
            r.z as int == sat_sub(
                sat_mul(self.x as int, o.y as int),
                sat_mul(self.y as int, o.x as int),
            ),
            r.wf(),
    {
        Vector {
            x: fsub(fmul(self.y, o.z), fmul(self.z, o.y)),
            y: fsub(fmul(self.z, o.x), fmul(self.x, o.z)),
            z: fsub(fmul(self.x, o.y), fmul(self.y, o.x)),
        }
    }

    /// The reflection of this vector about a surface normal:
    /// `v - n * 2 * dot(v, n)`.
    pub fn reflect(self, normal: Vector) -> (r: Vector)
        requires
            self.wf(),
            normal.wf(),
        ensures
            r == spec_reflect(self, normal),
            r.wf(),
    {
        let d = self.dot(normal);
        let twice = fadd(d, d);
        let scaled = normal.scale(twice);
        let out = self.minus(scaled);
        proof {
            assert(out == spec_reflect(self, normal));
        }
        out
    }

    /// The length of the vector.
    pub fn magnitude(self) -> (r: i128)
        requires
            self.wf(),
        ensures
            r as int == spec_magnitude(self),
            is_sqrt(spec_norm2(self) * crate::fixed::SCALE, r as int),
            0 <= r,
            in_range(r as int),
    {
        proof {
            lemma_norm2_nonneg(self);
        }
        let n2 = self.dot(self);
        fsqrt(n2)
    }

    /// The unit vector with this direction; the zero vector stays zero.
    pub fn normalize(self) -> (r: Vector)
        requires
            self.wf(),
        ensures
            r == spec_normalize(self),
            r.wf(),
    {
        let m = self.magnitude();
        if m == 0 {
            Vector { x: 0, y: 0, z: 0 }
        } else {
            self.div_by(m)
        }
    }

    /// Approximate equality of all three components.
    pub fn almost(self, o: Vector) -> (r: bool)
        requires
            self.wf(),
            o.wf(),
        ensures
            r == spec_almost_vec(self, o),
    {
        almost(self.x, o.x) && almost(self.y, o.y) && almost(self.z, o.z)
    }
}

/// The componentwise sum.
pub open spec fn spec_add_vv(a: Vector, b: Vector) -> Vector {
    Vector {
        x: sat_add(a.x as int, b.x as int) as i128,
        y: sat_add(a.y as int, b.y as int) as i128,
        z: sat_add(a.z as int, b.z as int) as i128,
    }
}

/// The componentwise difference.
pub open spec fn spec_sub_vv(a: Vector, b: Vector) -> Vector {
    Vector {
        x: sat_sub(a.x as int, b.x as int) as i128,
        y: sat_sub(a.y as int, b.y as int) as i128,
        z: sat_sub(a.z as int, b.z as int) as i128,
    }
}

/// The opposite vector.
pub open spec fn spec_neg_v(a: Vector) -> Vector {
    Vector {
        x: sat_neg(a.x as int) as i128,
        y: sat_neg(a.y as int) as i128,
        z: sat_neg(a.z as int) as i128,
    }
}

/// The vector scaled by a scalar.
pub open spec fn spec_scale_v(a: Vector, s: int) -> Vector {
    Vector {
        x: sat_mul(a.x as int, s) as i128,
        y: sat_mul(a.y as int, s) as i128,
        z: sat_mul(a.z as int, s) as i128,
    }
}

/// The cross product.
pub open spec fn spec_cross(a: Vector, b: Vector) -> Vector {
    Vector {
        x: sat_sub(sat_mul(a.y as int, b.z as int), sat_mul(a.z as int, b.y as int)) as i128,
        y: sat_sub(sat_mul(a.z as int, b.x as int), sat_mul(a.x as int, b.z as int)) as i128,
        z: sat_sub(sat_mul(a.x as int, b.y as int), sat_mul(a.y as int, b.x as int)) as i128,
    }
}

/// The reflection of `v` about the normal `n`.
pub open spec fn spec_reflect(v: Vector, n: Vector) -> Vector {
    let d = spec_dot(v, n);
    Vector {
        x: sat_sub(v.x as int, sat_mul(n.x as int, sat_add(d, d))) as i128,
        y: sat_sub(v.y as int, sat_mul(n.y as int, sat_add(d, d))) as i128,
        z: sat_sub(v.z as int, sat_mul(n.z as int, sat_add(d, d))) as i128,
    }
}

/// The normalized vector; the zero vector is left unchanged.
pub open spec fn spec_normalize(v: Vector) -> Vector {
    let m = spec_magnitude(v);
    if m == 0 {
        Vector { x: 0, y: 0, z: 0 }
    } else {
        Vector {
            x: sat_div(v.x as int, m) as i128,
            y: sat_div(v.y as int, m) as i128,
            z: sat_div(v.z as int, m) as i128,
        }
    }
}

/// Componentwise approximate equality.
pub open spec fn spec_almost_vec(a: Vector, b: Vector) -> bool {
    &&& spec_almost(a.x as int, b.x as int)
    &&& spec_almost(a.y as int, b.y as int)
    &&& spec_almost(a.z as int, b.z as int)
}

/// A squared length is never negative.
pub proof fn lemma_norm2_nonneg(v: Vector)
    ensures
        0 <= spec_norm2(v),
{
    lemma_sat_sq_nonneg(v.x as int);
    lemma_sat_sq_nonneg(v.y as int);
    lemma_sat_sq_nonneg(v.z as int);
}

/// A saturated square is never negative.
pub proof fn lemma_sat_sq_nonneg(a: int)
    ensures
        0 <= sat_mul(a, a),
{
    assert(0 <= a * a) by (nonlinear_arith);
    vstd::arithmetic::div_mod::lemma_div_pos_is_pos(a * a, crate::fixed::SCALE as int);
    assert(absi(a * a) == a * a);
}

} // verus!
