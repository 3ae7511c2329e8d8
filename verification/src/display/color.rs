//! Linear RGB colors with fixed-point channels.

use crate::fixed::{almost, clip, fadd, fmul, fsub, in_range, sat_add, sat_mul, sat_sub,
    spec_almost, SCALE};
use vstd::prelude::*;

verus! {

/// A linear RGB color; channels are fixed-point scalars where `SCALE` is
/// full intensity.
#[derive(Clone, Copy, Debug, PartialEq, Eq, Structural)]
pub struct Color {
    pub red: i128,
    pub green: i128,
    pub blue: i128,
}

/// The componentwise sum of two colors.
pub open spec fn spec_add_c(a: Color, b: Color) -> Color {
    Color {
        red: sat_add(a.red as int, b.red as int) as i128,
        green: sat_add(a.green as int, b.green as int) as i128,
        blue: sat_add(a.blue as int, b.blue as int) as i128,
    }
}

/// The componentwise difference of two colors.
pub open spec fn spec_sub_c(a: Color, b: Color) -> Color {
    Color {
        red: sat_sub(a.red as int, b.red as int) as i128,
        green: sat_sub(a.green as int, b.green as int) as i128,
        blue: sat_sub(a.blue as int, b.blue as int) as i128,
    }
}

/// The componentwise (Hadamard) product of two colors.
pub open spec fn spec_mul_c(a: Color, b: Color) -> Color {
    Color {
        red: sat_mul(a.red as int, b.red as int) as i128,
        green: sat_mul(a.green as int, b.green as int) as i128,
        blue: sat_mul(a.blue as int, b.blue as int) as i128,
    }
}

/// A color scaled by a scalar factor.
pub open spec fn spec_scale_c(a: Color, s: int) -> Color {
    Color {
        red: sat_mul(a.red as int, s) as i128,
        green: sat_mul(a.green as int, s) as i128,
        blue: sat_mul(a.blue as int, s) as i128,
    }
}

/// One channel mapped to a display byte: `clamp(round(c * 255), 0, 255)`.
pub open spec fn spec_to255(v: int) -> int {
    if v <= 0 {
        0
    } else {
        let q = (v * 255 + 500_000) / 1_000_000;
        if q > 255 {
            255
        } else {
            q
        }
    }
}

/// Componentwise approximate equality.
pub open spec fn spec_almost_color(a: Color, b: Color) -> bool {
    &&& spec_almost(a.red as int, b.red as int)
    &&& spec_almost(a.green as int, b.green as int)
    &&& spec_almost(a.blue as int, b.blue as int)
}

impl Color {
    /// All channels lie in the storable scalar range.
    pub open spec fn wf(self) -> bool {
        &&& in_range(self.red as int)
        &&& in_range(self.green as int)
        &&& in_range(self.blue as int)
    }

    /// The color with the given channels, saturated to the scalar range.
    pub fn new(red: i128, green: i128, blue: i128) -> (r: Color)
        ensures
            r.red as int == clip(red as int),
            r.green as int == clip(green as int),
            r.blue as int == clip(blue as int),
            r.wf(),
    {
        Color {
            red: crate::fixed::clamp_lim(red),
            green: crate::fixed::clamp_lim(green),
            blue: crate::fixed::clamp_lim(blue),
        }
    }

    /// Full white.
    pub fn white() -> (r: Color)
        ensures
            r.red == SCALE && r.green == SCALE && r.blue == SCALE,
            r.wf(),
    {
        Color { red: SCALE, green: SCALE, blue: SCALE }
    }

    /// Black: all channels zero.
    pub fn black() -> (r: Color)
        ensures
            r.red == 0 && r.green == 0 && r.blue == 0,
            r.wf(),
    {
        Color { red: 0, green: 0, blue: 0 }
    }

    /// Pure red.
    pub fn red_color() -> (r: Color)
        ensures
            r.red == SCALE && r.green == 0 && r.blue == 0,
            r.wf(),
    {
        Color { red: SCALE, green: 0, blue: 0 }
    }

    /// Componentwise sum.
    pub fn plus(self, o: Color) -> (r: Color)
        requires
            self.wf(),
            o.wf(),
        ensures
            r == spec_add_c(self, o),
            r.wf(),
    {
        Color {
            red: fadd(self.red, o.red),
            green: fadd(self.green, o.green),
            blue: fadd(self.blue, o.blue),
        }
    }

    /// Componentwise difference.
    pub fn minus(self, o: Color) -> (r: Color)
        requires
            self.wf(),
            o.wf(),
        ensures
            r == spec_sub_c(self, o),
            r.wf(),
    {
        Color {
            red: fsub(self.red, o.red),
            green: fsub(self.green, o.green),
            blue: fsub(self.blue, o.blue),
        }
    }

    /// Componentwise product.
    pub fn times(self, o: Color) -> (r: Color)
        requires
            self.wf(),
            o.wf(),
        ensures
            r == spec_mul_c(self, o),
            r.wf(),
    {
        Color {
            red: fmul(self.red, o.red),
            green: fmul(self.green, o.green),
            blue: fmul(self.blue, o.blue),
        }
    }

    /// The color scaled by a scalar factor.
    pub fn scale(self, s: i128) -> (r: Color)
        requires
            self.wf(),
            in_range(s as int),
        ensures
            r == spec_scale_c(self, s as int),
            r.wf(),
    {
        Color {
            red: fmul(self.red, s),
            green: fmul(self.green, s),
            blue: fmul(self.blue, s),
        }
    }

    /// The channels as display bytes in 0..=255, by clamped rounding.
    pub fn to255(self) -> (r: (u64, u64, u64))
        requires
            self.wf(),
        ensures
            r.0 as int == spec_to255(self.red as int),
            r.1 as int == spec_to255(self.green as int),
            r.2 as int == spec_to255(self.blue as int),
    {
        (value_to_255(self.red), value_to_255(self.green), value_to_255(self.blue))
    }

    /// Approximate equality of all three channels.
    pub fn almost(self, o: Color) -> (r: bool)
        requires
            self.wf(),
            o.wf(),
        ensures
            r == spec_almost_color(self, o),
    {
        almost(self.red, o.red) && almost(self.green, o.green) && almost(self.blue, o.blue)
    }
}

/// One channel mapped to a display byte.
fn value_to_255(value: i128) -> (r: u64)
    requires
        in_range(value as int),
    ensures
        r as int == spec_to255(value as int),
        r <= 255,
{
    if value <= 0 {
        return 0;
    }
    let n: u128 = (value * 255 + 500_000) as u128;
    let q: u128 = n / 1_000_000;
    proof {
        vstd::arithmetic::div_mod::lemma_div_pos_is_pos(n as int, 1_000_000);
        vstd::arithmetic::div_mod::lemma_div_is_ordered(n as int, 0x10000000000000000000, 1_000_000);
    }
    if q > 255 {
        255
    } else {
        q as u64
    }
}

/// The byte mapping is monotone and hits the exact endpoints: zero intensity
/// and below give 0, full intensity and above give 255.
pub proof fn lemma_to255_range(v: int)
    ensures
        0 <= spec_to255(v) <= 255,
        v <= 0 ==> spec_to255(v) == 0,
        v >= SCALE ==> spec_to255(v) == 255,
{
    if v > 0 {
        vstd::arithmetic::div_mod::lemma_div_pos_is_pos(v * 255 + 500_000, 1_000_000);
        if v >= SCALE {
            assert((v * 255 + 500_000) / 1_000_000 >= 255) by (nonlinear_arith)
                requires
                    v >= 1_000_000,
            ;
        }
    }
}

} // verus!
