//! Pixel-grid resolutions.

use crate::fixed::{fdiv, in_range, sat_div, SCALE};
use crate::helpers::general::{enumerate_coordinates, grid_len};
use vstd::prelude::*;

verus! {

/// A pixel grid size.  Both dimensions lie in `1..=32768`.
#[derive(Clone, Copy, Debug, PartialEq, Eq, Structural)]
pub struct Resolution {
    hsize: usize,
    vsize: usize,
}

impl Resolution {
    /// The horizontal size.
    pub closed spec fn spec_hsize(self) -> int {
        self.hsize as int
    }

    /// The vertical size.
    pub closed spec fn spec_vsize(self) -> int {
        self.vsize as int
    }

    /// Both dimensions are positive and small enough to address.
    pub open spec fn wf(self) -> bool {
        &&& 1 <= self.spec_hsize() <= 32768
        &&& 1 <= self.spec_vsize() <= 32768
    }

    /// The resolution with the given sizes, clamped into the supported range.
    pub fn new(hsize: usize, vsize: usize) -> (r: Resolution)
        ensures
            r.spec_hsize() == if hsize < 1 {
                1int
            } else if hsize > 32768 {
                32768int
            } else {
                hsize as int
            },
            r.spec_vsize() == if vsize < 1 {
                1int
            } else if vsize > 32768 {
                32768int
            } else {
                vsize as int
            },
            r.wf(),
    {
        let h: usize = if hsize < 1 {
            1
        } else if hsize > 32768 {
            32768
        } else {
            hsize
        };
        let v: usize = if vsize < 1 {
            1
        } else if vsize > 32768 {
            32768
        } else {
            vsize
        };
        Resolution { hsize: h, vsize: v }
    }

    /// A small size for quick renders.
    pub fn test_size() -> (r: Resolution)
        ensures
            r.spec_hsize() == 200 && r.spec_vsize() == 100,
            r.wf(),
    {
        Resolution { hsize: 200, vsize: 100 }
    }

    /// A low screen size.
    pub fn low() -> (r: Resolution)
        ensures
            r.spec_hsize() == 400 && r.spec_vsize() == 200,
            r.wf(),
    {
        Resolution { hsize: 400, vsize: 200 }
    }

    /// Full HD.
    pub fn fhd() -> (r: Resolution)
        ensures
            r.spec_hsize() == 1920 && r.spec_vsize() == 1080,
            r.wf(),
    {
        Resolution { hsize: 1920, vsize: 1080 }
    }

    /// The horizontal size.
    pub fn hsize(&self) -> (r: usize)
        ensures
            r as int == self.spec_hsize(),
    {
        self.hsize
    }

    /// The vertical size.
    pub fn vsize(&self) -> (r: usize)
        ensures
            r as int == self.spec_vsize(),
    {
        self.vsize
    }

    /// The width-to-height ratio, as a fixed-point scalar.
    pub fn aspect(&self) -> (r: i128)
        requires
            self.wf(),
        ensures
            r as int == sat_div(self.spec_hsize() * SCALE, self.spec_vsize() * SCALE),
            in_range(r as int),
    {
        let h: i128 = (self.hsize as i128) * SCALE;
        let v: i128 = (self.vsize as i128) * SCALE;
        fdiv(h, v)
    }

    /// Every pixel coordinate of the grid, column major.
    pub fn coordinates(&self) -> (r: Vec<(usize, usize)>)
        requires
            self.wf(),
        ensures
            r@.len() == self.spec_hsize() * self.spec_vsize(),
            forall|k: int|
                0 <= k < r@.len() ==> (#[trigger] r@[k]).0 == k / self.spec_vsize() && r@[k].1
                    == k % self.spec_vsize(),
    {
        let out = enumerate_coordinates(0..self.hsize, 0..self.vsize);
        proof {
            assert(grid_len(0, self.spec_hsize()) == self.spec_hsize());
            assert(grid_len(0, self.spec_vsize()) == self.spec_vsize());
        }
        out
    }
}

} // verus!
