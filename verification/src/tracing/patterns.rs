//! Procedural color patterns, sampled in pattern space.

use crate::display::color::{spec_add_c, spec_scale_c, spec_sub_c, Color};
use crate::fixed::{
    fadd, ffloor_even, ffrac, floor_even, floor_units, fmul, frac_units, fsqrt, sat_add,
    sat_mul, sat_sqrt,
};
use crate::geometry::matrix::{spec_mul_point, Matrix};
use crate::geometry::point::Point;
use vstd::prelude::*;

verus! {

/// The shape of a procedural pattern: a solid color or an alternation
/// between two colors.
#[derive(Clone, Copy, Debug, PartialEq, Eq, Structural)]
pub enum PatternKind {
    Solid(Color),
    Stripes(Color, Color),
    Gradient(Color, Color),
    Rings(Color, Color),
    Checkers(Color, Color),
}

impl PatternKind {
    /// Every color held is storable.
    pub open spec fn wf(self) -> bool {
        match self {
            PatternKind::Solid(c) => c.wf(),
            PatternKind::Stripes(a, b) => a.wf() && b.wf(),
            PatternKind::Gradient(a, b) => a.wf() && b.wf(),
            PatternKind::Rings(a, b) => a.wf() && b.wf(),
            PatternKind::Checkers(a, b) => a.wf() && b.wf(),
        }
    }
}

/// What a pattern kind yields at a pattern-space point.
pub open spec fn spec_kind_at(kind: PatternKind, p: Point) -> Color {
    match kind {
        PatternKind::Solid(c) => c,
        PatternKind::Stripes(a, b) => if floor_even(p.x as int) {
            a
        } else {
            b
        },
        PatternKind::Gradient(a, b) => {
            let f = if p.x < 0 {
                -frac_units(p.x as int)
            } else {
                frac_units(p.x as int)
            };
            spec_add_c(a, spec_scale_c(spec_sub_c(b, a), f))
        },
        PatternKind::Rings(a, b) => {
            let d = sat_sqrt(
                sat_add(sat_mul(p.x as int, p.x as int), sat_mul(p.z as int, p.z as int)),
            );
            if floor_even(d) {
                a
            } else {
                b
            }
        },
        PatternKind::Checkers(a, b) => {
            let s = floor_units(p.x as int) + floor_units(p.y as int) + floor_units(p.z as int);
            if s % 2 == 0 {
                a
            } else {
                b
            }
        },
    }
}

/// A pattern kind together with its own transform; sampling maps the point
/// into pattern space through the stored inverse.
#[derive(Clone, Debug)]
pub struct TransformedPattern {
    pub kind: PatternKind,
    pub transform: Matrix,
    pub inverse: Matrix,
}

/// What a transformed pattern yields at a shape-space point.
pub open spec fn spec_pattern_at(pat: TransformedPattern, p: Point) -> Color {
    spec_kind_at(pat.kind, spec_mul_point(pat.inverse, p))
}

impl TransformedPattern {
    /// The kind is storable and both matrices are well-formed 4x4.
    pub open spec fn wf(self) -> bool {
        &&& self.kind.wf()
        &&& self.transform.wf()
        &&& self.transform.is4x4()
        &&& self.inverse.wf()
        &&& self.inverse.is4x4()
    }

    /// The pattern with the identity transform.
    pub fn using_identity(kind: PatternKind) -> (r: TransformedPattern)
        requires
            kind.wf(),
        ensures
            r.kind == kind,
            r.wf(),
            forall|i: int, j: int|
                0 <= i < 4 && 0 <= j < 4 ==> r.inverse.val(i, j) == if i == j {
                    crate::fixed::SCALE as int
                } else {
                    0
                },
    {
        let identity = Matrix::identity(4);
        let inverse = Matrix::identity(4);
        TransformedPattern { kind, transform: identity, inverse }
    }

    /// The same pattern under a new transform; `None` when the transform
    /// cannot be inverted.
    pub fn with_transform(self, transform: Matrix) -> (r: Option<TransformedPattern>)
        requires
            self.wf(),
            transform.wf(),
            transform.is4x4(),
        ensures
            r is Some <==> crate::geometry::matrix::spec_det(4, 4, transform.vals()) != 0,
            r matches Some(p) ==> {
                &&& p.kind == self.kind
                &&& p.transform == transform
                &&& p.wf()
                &&& forall|i: int, j: int|
                    0 <= i < 4 && 0 <= j < 4 ==> p.inverse.val(i, j) == crate::fixed::sat_div(
                        crate::geometry::matrix::spec_cof(4, 4, transform.vals(), j, i),
                        crate::geometry::matrix::spec_det(4, 4, transform.vals()),
                    )
            },
    {
        let inv = transform.inverse();
        match inv {
            Option::Some(inverse) => Option::Some(
                TransformedPattern { kind: self.kind, transform, inverse },
            ),
            Option::None => Option::None,
        }
    }

    /// The pattern's color at a shape-space point.
    pub fn pattern_at(&self, point: Point) -> (r: Color)
        requires
            self.wf(),
            point.wf(),
        ensures
            r == spec_pattern_at(*self, point),
            r.wf(),
    {
        let local = self.inverse.mul_point(point);
        kind_at(&self.kind, local)
    }
}

/// A pattern kind sampled directly at a pattern-space point.
fn kind_at(kind: &PatternKind, p: Point) -> (r: Color)
    requires
        kind.wf(),
        p.wf(),
    ensures
        r == spec_kind_at(*kind, p),
        r.wf(),
{
    match kind {
        PatternKind::Solid(c) => *c,
        PatternKind::Stripes(a, b) => {
            if ffloor_even(p.x) {
                *a
            } else {
                *b
            }
        },
        PatternKind::Gradient(a, b) => {
            let fr = ffrac(p.x);
            let f: i128 = if p.x < 0 {
                -fr
            } else {
                fr
            };
            a.plus(b.minus(*a).scale(f))
        },
        PatternKind::Rings(a, b) => {
            proof {
                crate::geometry::vector::lemma_sat_sq_nonneg(p.x as int);
                crate::geometry::vector::lemma_sat_sq_nonneg(p.z as int);
            }
            let d = fsqrt(fadd(fmul(p.x, p.x), fmul(p.z, p.z)));
            if ffloor_even(d) {
                *a
            } else {
                *b
            }
        },
        PatternKind::Checkers(a, b) => {
            let fx = crate::fixed::ffloor(p.x);
            let fy = crate::fixed::ffloor(p.y);
            let fz = crate::fixed::ffloor(p.z);
            let s: i128 = fx + fy + fz;
            let sa: u128 = if s < 0 {
                (-s) as u128
            } else {
                s as u128
            };
            let even = sa % 2 == 0;
            proof {
                lemma_parity_abs(s as int);
            }
            if even {
                *a
            } else {
                *b
            }
        },
    }
}

/// Parity is unchanged by taking the magnitude.
proof fn lemma_parity_abs(s: int)
    ensures
        (s % 2 == 0) == (crate::fixed::absi(s) % 2 == 0),
{
    vstd::arithmetic::div_mod::lemma_fundamental_div_mod(s, 2);
    vstd::arithmetic::div_mod::lemma_mod_division_less_than_divisor(s, 2);
    if s < 0 {
        let q = s / 2;
        let m = s % 2;
        assert(crate::fixed::absi(s) == (-q - 1) * 2 + (2 - m) || crate::fixed::absi(s) == (-q)
            * 2 + 0) by (nonlinear_arith)
            requires
                s == 2 * q + m,
                0 <= m < 2,
                s < 0,
        ;
        if m == 0 {
            vstd::arithmetic::div_mod::lemma_fundamental_div_mod_converse_mod(
                crate::fixed::absi(s),
                2,
                -q,
                0,
            );
        } else {
            vstd::arithmetic::div_mod::lemma_fundamental_div_mod_converse_mod(
                crate::fixed::absi(s),
                2,
                -q - 1,
                2 - m,
            );
        }
    }
}

/// A single-color pattern.
pub struct Solid {}

impl Solid {
    /// A pattern that is `color` everywhere, with the identity transform.
    pub fn new(color: Color) -> (r: TransformedPattern)
        requires
            color.wf(),
        ensures
            r.kind == PatternKind::Solid(color),
            r.wf(),
            forall|p: Point| p.wf() ==> spec_pattern_at(r, p) == color,
    {
        let out = TransformedPattern::using_identity(PatternKind::Solid(color));
        proof {
            assert forall|p: Point| p.wf() implies spec_pattern_at(out, p) == color by {}
        }
        out
    }
}

/// Alternating stripes along the x-axis.
pub struct StripePattern {}

impl StripePattern {
    /// Stripes of `a` and `b` one unit wide, with the identity transform.
    pub fn new(a: Color, b: Color) -> (r: TransformedPattern)
        requires
            a.wf(),
            b.wf(),
        ensures
            r.kind == PatternKind::Stripes(a, b),
            r.wf(),
    {
        TransformedPattern::using_identity(PatternKind::Stripes(a, b))
    }
}

/// A linear blend along the x-axis.
pub struct Gradient {}

impl Gradient {
    /// A blend from `a` at whole numbers to `b`, with the identity transform.
    pub fn new(a: Color, b: Color) -> (r: TransformedPattern)
        requires
            a.wf(),
            b.wf(),
        ensures
            r.kind == PatternKind::Gradient(a, b),
            r.wf(),
    {
        TransformedPattern::using_identity(PatternKind::Gradient(a, b))
    }
}

/// Concentric rings in the xz-plane.
pub struct Rings {}

impl Rings {
    /// Rings of `a` and `b` one unit thick, with the identity transform.
    pub fn new(a: Color, b: Color) -> (r: TransformedPattern)
        requires
            a.wf(),
            b.wf(),
        ensures
            r.kind == PatternKind::Rings(a, b),
            r.wf(),
    {
        TransformedPattern::using_identity(PatternKind::Rings(a, b))
    }
}

/// A three-dimensional checkerboard.
pub struct Checkers {}

impl Checkers {
    /// Unit cubes of `a` and `b`, with the identity transform.
    pub fn new(a: Color, b: Color) -> (r: TransformedPattern)
        requires
            a.wf(),
            b.wf(),
        ensures
            r.kind == PatternKind::Checkers(a, b),
            r.wf(),
    {
        TransformedPattern::using_identity(PatternKind::Checkers(a, b))
    }
}

} // verus!
