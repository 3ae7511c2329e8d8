//! Coordinate enumeration and tuple ordering.

use vstd::prelude::*;

verus! {

/// Every `(x, y)` pair with `x` drawn from `xs` and `y` from `ys`, `x` major.
/// Range ends are limited so that the grid size fits the address space.
pub fn enumerate_coordinates(xs: core::ops::Range<usize>, ys: core::ops::Range<usize>) -> (r:
    Vec<(usize, usize)>)
    requires
        xs.end <= 32768,
        ys.end <= 32768,
    ensures
        r@.len() == grid_len(xs.start as int, xs.end as int) * grid_len(
            ys.start as int,
            ys.end as int,
        ),
        forall|k: int|
            0 <= k < r@.len() ==> {
                let yl = grid_len(ys.start as int, ys.end as int);
                &&& (#[trigger] r@[k]).0 == xs.start + k / yl
                &&& r@[k].1 == ys.start + k % yl
            },
{
    let xlen: usize = if xs.end > xs.start {
        xs.end - xs.start
    } else {
        0
    };
    let ylen: usize = if ys.end > ys.start {
        ys.end - ys.start
    } else {
        0
    };
    proof {
        assert(xlen * ylen <= 32768 * 32768) by (nonlinear_arith)
            requires
                0 <= xlen <= 32768,
                0 <= ylen <= 32768,
        ;
        assert(ylen == 0 ==> xlen * ylen == 0) by (nonlinear_arith);
        assert(xlen == 0 ==> xlen * ylen == 0) by (nonlinear_arith);
    }
    let n: usize = xlen * ylen;
    let mut out: Vec<(usize, usize)> = Vec::new();
    let mut idx: usize = 0;
    while idx < n
        invariant
            idx <= n,
            n == xlen * ylen,
            xlen == grid_len(xs.start as int, xs.end as int),
            ylen == grid_len(ys.start as int, ys.end as int),
            xlen == 0 || xs.start + xlen <= 32768,
            ylen == 0 || ys.start + ylen <= 32768,
            ylen == 0 ==> n == 0,
            xlen == 0 ==> n == 0,
            out@.len() == idx,
            forall|k: int|
                0 <= k < idx ==> (#[trigger] out@[k]).0 == xs.start + k / (ylen as int)
                    && out@[k].1 == ys.start + k % (ylen as int),
        decreases n - idx,
    {
        proof {
            crate::geometry::matrix::lemma_grid_coords(idx as int, ylen as int);
            assert((idx as int) / (ylen as int) < xlen as int) by (nonlinear_arith)
                requires
                    (idx as int) < (xlen as int) * (ylen as int),
                    ((idx as int) / (ylen as int)) * (ylen as int) + (idx as int) % (
                    ylen as int) == idx as int,
                    0 <= (idx as int) % (ylen as int) < ylen as int,
                    0 <= (idx as int) / (ylen as int),
                    1 <= ylen as int,
            ;
        }
        let x: usize = xs.start + idx / ylen;
        let y: usize = ys.start + idx % ylen;
        out.push((x, y));
        idx = idx + 1;
    }
    out
}

/// The number of values a half-open integer range holds.
pub open spec fn grid_len(start: int, end: int) -> int {
    if end > start {
        end - start
    } else {
        0
    }
}

/// A pair that can present itself in ascending order.
pub trait OrderedTuple {
    /// The same pair, smaller part first.
    fn ordered(self) -> Self;
}

impl OrderedTuple for (i128, i128) {
    fn ordered(self) -> (r: (i128, i128))
        ensures
            r.0 as int <= r.1 as int,
            (r == self) || (r == (self.1, self.0)),
    {
        let (t0, t1) = self;
        if t0 <= t1 {
            (t0, t1)
        } else {
            (t1, t0)
        }
    }
}

} // verus!
