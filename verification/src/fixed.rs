//! Fixed-point scalar arithmetic.
//!
//! A scalar is an `i128` counting millionths: `SCALE` units make one.  Every
//! scalar the library stores lies in `[-LIM, LIM]`; the operations saturate
//! at that range, so they are total and cannot overflow.  Each executable
//! operation returns exactly the value of its spec-level mirror
//! (`sat_add`, `sat_mul`, ...), so contracts built from the mirrors pin the
//! results down completely.

use vstd::arithmetic::div_mod::{lemma_div_pos_is_pos, lemma_div_is_ordered, lemma_div_nonincreasing};
use vstd::prelude::*;

verus! {

/// Number of units in 1.0.
pub const SCALE: i128 = 1_000_000;

/// Saturation bound of every scalar: one trillion, in real terms.
pub const LIM: i128 = 1_000_000_000_000_000_000;

/// Comparison tolerance of 0.00001, in units.
pub const EPS: i128 = 10;

/// A scalar the library may store.
pub open spec fn in_range(a: int) -> bool {
    -LIM <= a <= LIM
}

/// Magnitude of a mathematical integer.
pub open spec fn absi(a: int) -> int {
    if a < 0 {
        -a
    } else {
        a
    }
}

/// Saturation to `[-LIM, LIM]`.
pub open spec fn clip(a: int) -> int {
    if a > LIM {
        LIM as int
    } else if a < -LIM {
        -LIM as int
    } else {
        a
    }
}

/// Division truncated toward zero (the quotient of the magnitudes, signed).
pub open spec fn tdiv(a: int, d: int) -> int
    recommends
        d != 0,
{
    if (a < 0) == (d < 0) {
        absi(a) / absi(d)
    } else {
        -(absi(a) / absi(d))
    }
}

/// Saturating fixed-point addition.
pub open spec fn sat_add(a: int, b: int) -> int {
    clip(a + b)
}

/// Saturating fixed-point subtraction.
pub open spec fn sat_sub(a: int, b: int) -> int {
    clip(a - b)
}

/// Fixed-point negation.
pub open spec fn sat_neg(a: int) -> int {
    clip(-a)
}

/// Saturating fixed-point multiplication: `a * b` rescaled to units.
pub open spec fn sat_mul(a: int, b: int) -> int {
    clip(tdiv(a * b, SCALE as int))
}

/// Saturating fixed-point division: `a / b` rescaled to units.
pub open spec fn sat_div(a: int, b: int) -> int
    recommends
        b != 0,
{
    clip(tdiv(a * SCALE, b))
}

/// `r` is the integer square root (rounded down) of `n`.
pub open spec fn is_sqrt(n: int, r: int) -> bool {
    &&& 0 <= r
    &&& r * r <= n
    &&& n < (r + 1) * (r + 1)
}

/// The integer square root of `n`, rounded down.
pub open spec fn sqrt_floor(n: int) -> int {
    choose|r: int| is_sqrt(n, r)
}

/// Fixed-point square root: the root of `a` scaled back to units.
pub open spec fn sat_sqrt(a: int) -> int {
    sqrt_floor(a * SCALE)
}

/// Fixed-point power with a natural exponent; `pow_fp(a, 0) == SCALE` (one).
pub open spec fn pow_fp(a: int, n: nat) -> int
    decreases n,
{
    if n == 0 {
        SCALE as int
    } else {
        sat_mul(pow_fp(a, (n - 1) as nat), a)
    }
}

/// Two scalars are approximately equal when they differ by less than `EPS`.
pub open spec fn spec_almost(a: int, b: int) -> bool {
    absi(a - b) < EPS
}

proof fn lemma_abs_quot_le(a: int, d: int)
    requires
        d != 0,
    ensures
        0 <= absi(a) / absi(d) <= absi(a),
        absi(tdiv(a, d)) == absi(a) / absi(d),
{
    lemma_div_pos_is_pos(absi(a), absi(d));
    lemma_div_nonincreasing(absi(a), absi(d));
}

/// The quotient of the magnitudes cannot exceed the numerator's magnitude.
pub proof fn lemma_tdiv_le(a: int, d: int)
    requires
        d != 0,
    ensures
        absi(tdiv(a, d)) <= absi(a),
{
    lemma_abs_quot_le(a, d);
}

/// Monotonicity of the magnitude of a truncated quotient in the numerator.
pub proof fn lemma_tdiv_mag_mono(a: int, aa: int, d: int)
    requires
        d != 0,
        absi(a) <= aa,
    ensures
        absi(tdiv(a, d)) <= aa / absi(d),
{
    lemma_abs_quot_le(a, d);
    lemma_div_is_ordered(absi(a), aa, absi(d));
}

/// Magnitude bound on a product.
pub proof fn lemma_mul_mag(a: int, aa: int, b: int, bb: int)
    by (nonlinear_arith)
    requires
        -aa <= a <= aa,
        -bb <= b <= bb,
        0 <= aa,
        0 <= bb,
    ensures
        -(aa * bb) <= a * b <= aa * bb,
{
}

/// A product of unit-interval scalars stays in the unit interval.
pub proof fn lemma_sat_mul_unit(a: int, b: int)
    requires
        0 <= a <= SCALE,
        0 <= b <= SCALE,
    ensures
        0 <= sat_mul(a, b) <= SCALE,
{
    lemma_mul_mag(a, SCALE as int, b, SCALE as int);
    assert(0 <= a * b) by (nonlinear_arith)
        requires
            0 <= a,
            0 <= b,
    ;
    lemma_div_pos_is_pos(a * b, SCALE as int);
    lemma_tdiv_mag_mono(a * b, SCALE * SCALE, SCALE as int);
    assert((SCALE * SCALE) as int / (SCALE as int) == SCALE);
}

/// The square root is determined: two roots of the same `n` are equal.
pub proof fn lemma_sqrt_unique(n: int, r1: int, r2: int)
    by (nonlinear_arith)
    requires
        0 <= r1,
        r1 * r1 <= n,
        n < (r1 + 1) * (r1 + 1),
        0 <= r2,
        r2 * r2 <= n,
        n < (r2 + 1) * (r2 + 1),
    ensures
        r1 == r2,
{
}

/// The rounded-down square root of a perfect square is its root.
pub proof fn lemma_sqrt_of_square(r: int)
    requires
        0 <= r,
    ensures
        sqrt_floor(r * r) == r,
{
    assert(0 <= r && r * r <= r * r && r * r < (r + 1) * (r + 1)) by (nonlinear_arith)
        requires
            0 <= r,
    ;
    assert(is_sqrt(r * r, r));
    let c = choose|c: int| #[trigger] is_sqrt(r * r, c);
    assert(is_sqrt(r * r, c));
    lemma_sqrt_unique(r * r, c, r);
}

/// Saturation to the storable range.
pub fn clamp_lim(a: i128) -> (r: i128)
    ensures
        r as int == clip(a as int),
        in_range(r as int),
{
    if a > LIM {
        LIM
    } else if a < -LIM {
        -LIM
    } else {
        a
    }
}

/// Division truncated toward zero.
fn tdiv_exec(a: i128, d: i128) -> (r: i128)
    requires
        d != 0,
        absi(a as int) < 0x8000_0000_0000_0000_0000_0000_0000_0000,
        absi(d as int) < 0x8000_0000_0000_0000_0000_0000_0000_0000,
    ensures
        r as int == tdiv(a as int, d as int),
{
    let neg: bool = (a < 0) != (d < 0);
    let ua: u128 = if a < 0 {
        (-a) as u128
    } else {
        a as u128
    };
    let ud: u128 = if d < 0 {
        (-d) as u128
    } else {
        d as u128
    };
    assert(ua as int == absi(a as int));
    assert(ud as int == absi(d as int));
    let q: u128 = ua / ud;
    proof {
        lemma_div_nonincreasing(ua as int, ud as int);
        lemma_div_pos_is_pos(ua as int, ud as int);
    }
    if neg {
        -(q as i128)
    } else {
        q as i128
    }
}

/// Saturating addition.
pub fn fadd(a: i128, b: i128) -> (r: i128)
    requires
        in_range(a as int),
        in_range(b as int),
    ensures
        r as int == sat_add(a as int, b as int),
        in_range(r as int),
{
    clamp_lim(a + b)
}

/// Saturating subtraction.
pub fn fsub(a: i128, b: i128) -> (r: i128)
    requires
        in_range(a as int),
        in_range(b as int),
    ensures
        r as int == sat_sub(a as int, b as int),
        in_range(r as int),
{
    clamp_lim(a - b)
}

/// Negation.
pub fn fneg(a: i128) -> (r: i128)
    requires
        in_range(a as int),
    ensures
        r as int == sat_neg(a as int),
        in_range(r as int),
{
    -a
}

/// Saturating fixed-point multiplication.
pub fn fmul(a: i128, b: i128) -> (r: i128)
    requires
        in_range(a as int),
        in_range(b as int),
    ensures
        r as int == sat_mul(a as int, b as int),
        in_range(r as int),
{
    proof {
        lemma_mul_mag(a as int, LIM as int, b as int, LIM as int);
    }
    let p: i128 = a * b;
    clamp_lim(tdiv_exec(p, SCALE))
}

/// Saturating fixed-point division.
pub fn fdiv(a: i128, b: i128) -> (r: i128)
    requires
        in_range(a as int),
        in_range(b as int),
        b != 0,
    ensures
        r as int == sat_div(a as int, b as int),
        in_range(r as int),
{
    proof {
        lemma_mul_mag(a as int, LIM as int, SCALE as int, SCALE as int);
    }
    let n: i128 = a * SCALE;
    clamp_lim(tdiv_exec(n, b))
}

/// Magnitude.
pub fn fabs(a: i128) -> (r: i128)
    requires
        in_range(a as int),
    ensures
        r as int == absi(a as int),
        in_range(r as int),
{
    if a < 0 {
        -a
    } else {
        a
    }
}

/// The larger scalar.
pub fn fmax(a: i128, b: i128) -> (r: i128)
    ensures
        r as int == if a as int >= b as int {
            a as int
        } else {
            b as int
        },
{
    if a >= b {
        a
    } else {
        b
    }
}

/// The smaller scalar.
pub fn fmin(a: i128, b: i128) -> (r: i128)
    ensures
        r as int == if a as int <= b as int {
            a as int
        } else {
            b as int
        },
{
    if a <= b {
        a
    } else {
        b
    }
}

/// Integer square root by bisection.
fn isqrt_exec(n: u128) -> (r: u128)
    requires
        (n as int) < 4_000_000_000_000_000_000_000_000,
    ensures
        is_sqrt(n as int, r as int),
{
    let mut lo: u128 = 0;
    let mut hi: u128 = 2_000_000_000_000;
    assert(2_000_000_000_000 * 2_000_000_000_000 == 4_000_000_000_000_000_000_000_000int);
    while lo + 1 < hi
        invariant
            lo < hi,
            hi <= 2_000_000_000_000,
            (lo as int) * (lo as int) <= n as int,
            (n as int) < (hi as int) * (hi as int),
        decreases hi - lo,
    {
        let mid: u128 = lo + (hi - lo) / 2;
        assert(lo < mid < hi);
        assert((mid as int) * (mid as int) <= 4_000_000_000_000_000_000_000_000) by (nonlinear_arith)
            requires
                0 <= mid as int <= 2_000_000_000_000,
        ;
        if mid * mid <= n {
            lo = mid;
        } else {
            hi = mid;
        }
    }
    lo
}

/// Fixed-point square root of a nonnegative scalar.
pub fn fsqrt(a: i128) -> (r: i128)
    requires
        in_range(a as int),
        0 <= a,
    ensures
        r as int == sat_sqrt(a as int),
        is_sqrt(a as int * SCALE, r as int),
        0 <= r,
        in_range(r as int),
{
    proof {
        lemma_mul_mag(a as int, LIM as int, SCALE as int, SCALE as int);
        assert(0 <= a as int * SCALE as int) by (nonlinear_arith)
            requires
                0 <= a as int,
        ;
    }
    let n: u128 = (a * SCALE) as u128;
    let s: u128 = isqrt_exec(n);
    proof {
        assert((s as int) * (s as int) <= 4_000_000_000_000_000_000_000_000);
        assert(s as int <= 2_000_000_000_000) by (nonlinear_arith)
            requires
                (s as int) * (s as int) <= 4_000_000_000_000_000_000_000_000,
                0 <= s as int,
        ;
        lemma_sqrt_unique(a as int * SCALE, s as int, sqrt_floor(a as int * SCALE));
    }
    s as i128
}

/// Fixed-point power with a natural exponent.
pub fn fpow(a: i128, n: u32) -> (r: i128)
    requires
        0 <= a <= SCALE,
    ensures
        r as int == pow_fp(a as int, n as nat),
        0 <= r <= SCALE,
{
    let mut r: i128 = SCALE;
    let mut i: u32 = 0;
    while i < n
        invariant
            i <= n,
            0 <= a <= SCALE,
            r as int == pow_fp(a as int, i as nat),
            0 <= r <= SCALE,
        decreases n - i,
    {
        proof {
            lemma_sat_mul_unit(r as int, a as int);
        }
        r = fmul(r, a);
        i = i + 1;
    }
    r
}

/// Pi, in units.
pub const PI_FP: i128 = 3_141_593;

/// Pi/2, in units.
pub const HALF_PI_FP: i128 = 1_570_796;

/// 2*Pi, in units.
pub const TWO_PI_FP: i128 = 6_283_185;

/// Clamp to the unit interval `[-SCALE, SCALE]`.
pub open spec fn clip_one(a: int) -> int {
    if a > SCALE {
        SCALE as int
    } else if a < -SCALE {
        -SCALE as int
    } else {
        a
    }
}

/// The argument of `x` reduced to `(-PI, PI]`, in units.
pub open spec fn spec_reduce(x: int) -> int {
    let r0 = x - tdiv(x, TWO_PI_FP as int) * TWO_PI_FP;
    let r1 = if r0 < 0 {
        r0 + TWO_PI_FP
    } else {
        r0
    };
    if r1 > PI_FP {
        r1 - TWO_PI_FP
    } else {
        r1
    }
}

/// The sine polynomial on a reduced argument `r` in `[-PI/2, PI/2]`.
pub open spec fn spec_sin_poly(r: int) -> int {
    let x2 = sat_mul(r, r);
    let u1 = SCALE - tdiv(x2, 72);
    let u2 = SCALE - tdiv(sat_mul(x2, u1), 42);
    let u3 = SCALE - tdiv(sat_mul(x2, u2), 20);
    let u4 = SCALE - tdiv(sat_mul(x2, u3), 6);
    clip_one(sat_mul(r, u4))
}

/// Fixed-point sine: argument reduction, then a polynomial approximation.
pub open spec fn spec_sin(x: int) -> int {
    let r = spec_reduce(x);
    let f = if r > HALF_PI_FP {
        PI_FP - r
    } else if r < -HALF_PI_FP {
        -PI_FP - r
    } else {
        r
    };
    spec_sin_poly(f)
}

/// Fixed-point cosine, as the sine of the shifted argument.
pub open spec fn spec_cos(x: int) -> int {
    spec_sin(sat_add(x, HALF_PI_FP as int))
}

/// Fixed-point tangent; saturates where the cosine vanishes.
pub open spec fn spec_tan(x: int) -> int {
    if spec_cos(x) == 0 {
        if spec_sin(x) >= 0 {
            LIM as int
        } else {
            -LIM as int
        }
    } else {
        sat_div(spec_sin(x), spec_cos(x))
    }
}

/// Division truncated toward zero, saturated; exposed for small denominators.
fn fdivi(a: i128, d: i128) -> (r: i128)
    requires
        in_range(a as int),
        d != 0,
        absi(d as int) <= LIM,
    ensures
        r as int == tdiv(a as int, d as int),
        in_range(r as int),
{
    proof {
        lemma_tdiv_le(a as int, d as int);
    }
    tdiv_exec(a, d)
}

/// Sine of an angle given in radian units.  The result is the exact value of
/// the `spec_sin` approximation and always lies in the unit interval.
pub fn fsin(x: i128) -> (r: i128)
    requires
        in_range(x as int),
    ensures
        r as int == spec_sin(x as int),
        -SCALE <= r <= SCALE,
{
    let k: i128 = fdivi(x, TWO_PI_FP);
    proof {
        vstd::arithmetic::div_mod::lemma_fundamental_div_mod(absi(x as int), TWO_PI_FP as int);
        vstd::arithmetic::div_mod::lemma_mod_division_less_than_divisor(absi(x as int),
            TWO_PI_FP as int);
        assert(-TWO_PI_FP < (x as int) - (k as int) * TWO_PI_FP < TWO_PI_FP);
    }
    let r0: i128 = x - k * TWO_PI_FP;
    let r1: i128 = if r0 < 0 {
        r0 + TWO_PI_FP
    } else {
        r0
    };
    let r2: i128 = if r1 > PI_FP {
        r1 - TWO_PI_FP
    } else {
        r1
    };
    let f: i128 = if r2 > HALF_PI_FP {
        PI_FP - r2
    } else if r2 < -HALF_PI_FP {
        -PI_FP - r2
    } else {
        r2
    };
    let x2: i128 = fmul(f, f);
    let u1: i128 = SCALE - fdivi(x2, 72);
    let u2: i128 = SCALE - fdivi(fmul(x2, u1), 42);
    let u3: i128 = SCALE - fdivi(fmul(x2, u2), 20);
    let u4: i128 = SCALE - fdivi(fmul(x2, u3), 6);
    let s: i128 = fmul(f, u4);
    if s > SCALE {
        SCALE
    } else if s < -SCALE {
        -SCALE
    } else {
        s
    }
}

/// Cosine of an angle given in radian units.
pub fn fcos(x: i128) -> (r: i128)
    requires
        in_range(x as int),
    ensures
        r as int == spec_cos(x as int),
        -SCALE <= r <= SCALE,
{
    fsin(fadd(x, HALF_PI_FP))
}

/// Tangent of an angle given in radian units.
pub fn ftan(x: i128) -> (r: i128)
    requires
        in_range(x as int),
    ensures
        r as int == spec_tan(x as int),
        in_range(r as int),
{
    let s = fsin(x);
    let c = fcos(x);
    if c == 0 {
        if s >= 0 {
            LIM
        } else {
            -LIM
        }
    } else {
        fdiv(s, c)
    }
}

/// The whole-unit floor of a scalar: `x` rounded down to a count of ones.
pub open spec fn floor_units(x: int) -> int {
    x / (SCALE as int)
}

/// Whether the whole-unit floor of a scalar is even.
pub open spec fn floor_even(x: int) -> bool {
    floor_units(x) % 2 == 0
}

/// The nonnegative fractional part of a scalar, in units: `x - floor(x)`
/// for nonnegative `x`, and the mirrored fraction for negative `x`.
pub open spec fn frac_units(x: int) -> int {
    absi(x) % (SCALE as int)
}

/// The whole-unit floor of a scalar.
pub fn ffloor(x: i128) -> (r: i128)
    requires
        in_range(x as int),
    ensures
        r as int == floor_units(x as int),
        in_range(r as int),
{
    proof {
        vstd::arithmetic::div_mod::lemma_fundamental_div_mod(x as int, SCALE as int);
        vstd::arithmetic::div_mod::lemma_mod_division_less_than_divisor(x as int, SCALE as int);
        vstd::arithmetic::div_mod::lemma_div_pos_is_pos(absi(x as int), SCALE as int);
        vstd::arithmetic::div_mod::lemma_div_nonincreasing(absi(x as int), SCALE as int);
    }
    if x >= 0 {
        let q: u128 = (x as u128) / (SCALE as u128);
        q as i128
    } else {
        let q: u128 = (((-x) as u128) + (SCALE as u128) - 1) / (SCALE as u128);
        proof {
            let xi = x as int;
            let sc = SCALE as int;
            let fq = xi / sc;
            let fr = xi % sc;
            assert(xi == sc * fq + fr && 0 <= fr < sc);
            assert(-xi == sc * (-fq) - fr);
            assert((-xi + sc - 1) == (-fq) * sc + (sc - fr - 1)) by (nonlinear_arith)
                requires
                    -xi == sc * (-fq) - fr,
            ;
            vstd::arithmetic::div_mod::lemma_fundamental_div_mod_converse_div(
                -xi + sc - 1,
                sc,
                -fq,
                sc - fr - 1,
            );
            assert(-fq <= absi(xi));
        }
        -(q as i128)
    }
}

/// Whether the whole-unit floor of a scalar is even.
pub fn ffloor_even(x: i128) -> (r: bool)
    requires
        in_range(x as int),
    ensures
        r == floor_even(x as int),
{
    let f = ffloor(x);
    let fa: u128 = if f < 0 {
        (-f) as u128
    } else {
        f as u128
    };
    let r = fa % 2 == 0;
    proof {
        let fi = f as int;
        vstd::arithmetic::div_mod::lemma_fundamental_div_mod(fi, 2);
        vstd::arithmetic::div_mod::lemma_mod_division_less_than_divisor(fi, 2);
        vstd::arithmetic::div_mod::lemma_fundamental_div_mod(absi(fi), 2);
        vstd::arithmetic::div_mod::lemma_mod_division_less_than_divisor(absi(fi), 2);
        if fi < 0 {
            let q = fi / 2;
            let m = fi % 2;
            assert(absi(fi) == 2 * (-q) - m);
            if m == 0 {
                assert(absi(fi) == (-q) * 2 + 0) by (nonlinear_arith)
                    requires
                        absi(fi) == 2 * (-q) - m,
                        m == 0,
                ;
                vstd::arithmetic::div_mod::lemma_fundamental_div_mod_converse_mod(absi(fi), 2, -q,
                    0);
            } else {
                assert(absi(fi) == (-q - 1) * 2 + (2 - m)) by (nonlinear_arith)
                    requires
                        absi(fi) == 2 * (-q) - m,
                ;
                vstd::arithmetic::div_mod::lemma_fundamental_div_mod_converse_mod(
                    absi(fi),
                    2,
                    -q - 1,
                    2 - m,
                );
            }
        }
    }
    r
}

/// The nonnegative fractional part of a scalar, in units.
pub fn ffrac(x: i128) -> (r: i128)
    requires
        in_range(x as int),
    ensures
        r as int == frac_units(x as int),
        0 <= r < SCALE,
{
    let ax: u128 = if x < 0 {
        (-x) as u128
    } else {
        x as u128
    };
    let m: u128 = ax % (SCALE as u128);
    proof {
        vstd::arithmetic::div_mod::lemma_mod_division_less_than_divisor(absi(x as int),
            SCALE as int);
    }
    m as i128
}

/// Approximate equality within `EPS`.
pub fn almost(a: i128, b: i128) -> (r: bool)
    requires
        in_range(a as int),
        in_range(b as int),
    ensures
        r == spec_almost(a as int, b as int),
{
    fabs(fsub(a, b)) < EPS
}

} // verus!
