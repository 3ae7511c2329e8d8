//! Dense matrices over fixed-point scalars, with cofactor determinants and
//! inverses.  Sizes up to 100x100 are representable; the tracer uses 4x4.
//!
//! The spec mirror works on a grid view `(height, width, Seq<int>)`; every
//! executable operation returns exactly the value of its mirror.

use crate::fixed::{
    clip, fadd, fdiv, fmul, fneg, fsub, in_range, sat_add, sat_div, sat_mul, sat_neg, sat_sub,
    spec_almost, EPS, SCALE,
};
use crate::geometry::point::Point;
use crate::geometry::vector::Vector;
use vstd::prelude::*;

verus! {

/// The entry at row `i`, column `j` of a row-major grid of width `w`.
pub open spec fn gval(w: int, vals: Seq<int>, i: int, j: int) -> int {
    vals[i * w + j]
}

/// The grid left after removing row `row` and column `col`.
pub open spec fn sub_grid(h: int, w: int, vals: Seq<int>, row: int, col: int) -> Seq<int> {
    Seq::new(
        (if h >= 1 && w >= 1 {
            (h - 1) * (w - 1)
        } else {
            0
        }) as nat,
        |idx: int|
            {
                let i = idx / (w - 1);
                let j = idx % (w - 1);
                gval(
                    w,
                    vals,
                    if i < row {
                        i
                    } else {
                        i + 1
                    },
                    if j < col {
                        j
                    } else {
                        j + 1
                    },
                )
            },
    )
}

/// The determinant of a square grid: the direct formula at size two,
/// cofactor expansion along row zero above that.
pub open spec fn spec_det(h: int, w: int, vals: Seq<int>) -> int
    decreases h, w + 1, 1int,
{
    if h < 2 || w < 2 {
        0
    } else if h == 2 && w == 2 {
        sat_sub(
            sat_mul(gval(w, vals, 0, 0), gval(w, vals, 1, 1)),
            sat_mul(gval(w, vals, 0, 1), gval(w, vals, 1, 0)),
        )
    } else {
        spec_det_row(h, w, vals, w as nat)
    }
}

/// The partial cofactor expansion over the first `k` columns of row zero.
pub open spec fn spec_det_row(h: int, w: int, vals: Seq<int>, k: nat) -> int
    decreases h, k, 1int,
{
    if k == 0 || h < 1 {
        0
    } else {
        sat_add(
            spec_det_row(h, w, vals, (k - 1) as nat),
            sat_mul(gval(w, vals, 0, k - 1), spec_cof(h, w, vals, 0, k - 1)),
        )
    }
}

/// The cofactor at `(r, c)`: the minor, signed by the parity of `r + c`.
pub open spec fn spec_cof(h: int, w: int, vals: Seq<int>, r: int, c: int) -> int
    decreases h, 0int, 0int,
{
    if h < 1 {
        0
    } else {
        let minor = spec_det(h - 1, w - 1, sub_grid(h, w, vals, r, c));
        if (r + c) % 2 == 0 {
            minor
        } else {
            sat_neg(minor)
        }
    }
}

/// Row `i` of a 4x4 grid applied to the homogeneous column `(x, y, z, t)`.
pub open spec fn spec_apply_row(w: int, vals: Seq<int>, i: int, x: int, y: int, z: int,
    t: int) -> int {
    sat_add(
        sat_add(
            sat_add(sat_mul(gval(w, vals, i, 0), x), sat_mul(gval(w, vals, i, 1), y)),
            sat_mul(gval(w, vals, i, 2), z),
        ),
        sat_mul(gval(w, vals, i, 3), t),
    )
}

/// A 4x4 grid applied to a point (homogeneous coordinate one).
pub open spec fn spec_mul_point(m: Matrix, p: Point) -> Point {
    Point {
        x: spec_apply_row(4, m.vals(), 0, p.x as int, p.y as int, p.z as int, SCALE as int) as i128,
        y: spec_apply_row(4, m.vals(), 1, p.x as int, p.y as int, p.z as int, SCALE as int) as i128,
        z: spec_apply_row(4, m.vals(), 2, p.x as int, p.y as int, p.z as int, SCALE as int) as i128,
    }
}

/// A 4x4 grid applied to a vector (homogeneous coordinate zero).
pub open spec fn spec_mul_vector(m: Matrix, v: Vector) -> Vector {
    Vector {
        x: spec_apply_row(4, m.vals(), 0, v.x as int, v.y as int, v.z as int, 0) as i128,
        y: spec_apply_row(4, m.vals(), 1, v.x as int, v.y as int, v.z as int, 0) as i128,
        z: spec_apply_row(4, m.vals(), 2, v.x as int, v.y as int, v.z as int, 0) as i128,
    }
}

/// A grid index stays inside a row-major buffer.
pub proof fn lemma_grid_index(i: int, j: int, h: int, w: int)
    by (nonlinear_arith)
    requires
        0 <= i < h,
        0 <= j < w,
    ensures
        0 <= i * w + j < h * w,
        i * w + j < h * w,
{
}

/// Row-major index arithmetic: position and coordinates determine each other.
pub proof fn lemma_grid_coords(idx: int, w: int)
    by (nonlinear_arith)
    requires
        0 <= idx,
        1 <= w,
    ensures
        idx == (idx / w) * w + (idx % w),
        0 <= idx % w < w,
        0 <= idx / w,
{
    vstd::arithmetic::div_mod::lemma_fundamental_div_mod(idx, w);
    vstd::arithmetic::div_mod::lemma_mod_division_less_than_divisor(idx, w);
    vstd::arithmetic::div_mod::lemma_div_pos_is_pos(idx, w);
}

/// The product cell at `(i, j)` folded over the first `k` terms:
/// row `i` of `a` against column `j` of `b`.
pub open spec fn spec_cell_k(wa: int, a: Seq<int>, wb: int, b: Seq<int>, i: int, j: int,
    k: nat) -> int
    decreases k,
{
    if k == 0 {
        0
    } else {
        sat_add(
            spec_cell_k(wa, a, wb, b, i, j, (k - 1) as nat),
            sat_mul(gval(wa, a, i, k - 1), gval(wb, b, k - 1, j)),
        )
    }
}

/// Supported dimensions give small buffers.
pub proof fn lemma_dims_small(h: int, w: int)
    by (nonlinear_arith)
    requires
        0 <= h <= 100,
        0 <= w <= 100,
    ensures
        0 <= h * w <= 10000,
{
}

/// A dense row-major matrix of fixed-point scalars.
#[derive(Clone, Debug)]
pub struct Matrix {
    height: usize,
    width: usize,
    values: Vec<i128>,
}

/// A builder carrying the dimensions of the matrix under construction.
pub struct MatrixBuilder {
    height: usize,
    width: usize,
}

impl MatrixBuilder {
    /// The dimensions carried by this builder.
    pub closed spec fn dims(self) -> (int, int) {
        (self.height as int, self.width as int)
    }

    /// Fill the matrix row by row from the supplied values; missing entries
    /// are zero, extra entries are dropped, and each is saturated.
    pub fn of(self, values: Vec<i128>) -> (r: Matrix)
        requires
            1 <= self.dims().0 <= 100,
            1 <= self.dims().1 <= 100,
        ensures
            r.height() == self.dims().0,
            r.width() == self.dims().1,
            r.vals() == Seq::new(
                (self.dims().0 * self.dims().1) as nat,
                |i: int|
                    clip(
                        if i < values@.len() {
                            values@[i] as int
                        } else {
                            0
                        },
                    ),
            ),
            r.wf(),
    {
        proof {
            lemma_dims_small(self.height as int, self.width as int);
        }
        let n: usize = self.height * self.width;
        let mut out: Vec<i128> = Vec::new();
        let mut idx: usize = 0;
        while idx < n
            invariant
                idx <= n,
                out@.len() == idx,
                forall|k: int|
                    0 <= k < idx ==> out@[k] as int == clip(
                        if k < values@.len() {
                            values@[k] as int
                        } else {
                            0
                        },
                    ),
            decreases n - idx,
        {
            let v: i128 = if idx < values.len() {
                values[idx]
            } else {
                0
            };
            out.push(crate::fixed::clamp_lim(v));
            idx = idx + 1;
        }
        let m = Matrix { height: self.height, width: self.width, values: out };
        proof {
            assert(m.vals() =~= Seq::new(
                (self.height * self.width) as nat,
                |i: int|
                    clip(
                        if i < values@.len() {
                            values@[i] as int
                        } else {
                            0
                        },
                    ),
            ));
        }
        m
    }
}

impl Matrix {
    /// Number of rows.
    pub closed spec fn height(self) -> int {
        self.height as int
    }

    /// Number of columns.
    pub closed spec fn width(self) -> int {
        self.width as int
    }

    /// The entries as mathematical integers, row-major.
    pub closed spec fn vals(self) -> Seq<int> {
        self.values@.map(|i: int, v: i128| v as int)
    }

    /// The entry at row `i`, column `j`.
    pub open spec fn val(self, i: int, j: int) -> int {
        gval(self.width(), self.vals(), i, j)
    }

    /// Dimensions are supported and every entry is a storable scalar.
    pub open spec fn wf(self) -> bool {
        &&& 1 <= self.height() <= 100
        &&& 1 <= self.width() <= 100
        &&& self.vals().len() == self.height() * self.width()
        &&& forall|k: int| 0 <= k < self.vals().len() ==> in_range(#[trigger] self.vals()[k])
    }

    /// A square matrix of the tracer's working size.
    pub open spec fn is4x4(self) -> bool {
        self.height() == 4 && self.width() == 4
    }

    /// A builder for a matrix of the given size, clamped to the supported
    /// range of dimensions.
    pub fn of_size(height: usize, width: usize) -> (r: MatrixBuilder)
        ensures
            r.dims().0 == if height < 1 {
                1int
            } else if height > 100 {
                100int
            } else {
                height as int
            },
            r.dims().1 == if width < 1 {
                1int
            } else if width > 100 {
                100int
            } else {
                width as int
            },
    {
        let h: usize = if height < 1 {
            1
        } else if height > 100 {
            100
        } else {
            height
        };
        let w: usize = if width < 1 {
            1
        } else if width > 100 {
            100
        } else {
            width
        };
        MatrixBuilder { height: h, width: w }
    }

    /// A builder for a square matrix.
    pub fn square(size: usize) -> (r: MatrixBuilder)
        ensures
            r.dims().0 == r.dims().1,
            r.dims().0 == if size < 1 {
                1int
            } else if size > 100 {
                100int
            } else {
                size as int
            },
    {
        Matrix::of_size(size, size)
    }

    /// The identity matrix: one on the diagonal, zero elsewhere.
    pub fn identity(size: usize) -> (r: Matrix)
        requires
            1 <= size <= 100,
        ensures
            r.height() == size,
            r.width() == size,
            r.wf(),
            forall|i: int, j: int|
                0 <= i < size && 0 <= j < size ==> r.val(i, j) == if i == j {
                    SCALE as int
                } else {
                    0
                },
    {
        proof {
            lemma_dims_small(size as int, size as int);
        }
        let n: usize = size * size;
        let mut out: Vec<i128> = Vec::new();
        let mut idx: usize = 0;
        while idx < n
            invariant
                idx <= n,
                n == size * size,
                1 <= size <= 100,
                out@.len() == idx,
                forall|k: int|
                    0 <= k < idx ==> out@[k] as int == if k / (size as int) == k % (
                    size as int) {
                        SCALE as int
                    } else {
                        0
                    },
            decreases n - idx,
        {
            let r: usize = idx / size;
            let c: usize = idx % size;
            if r == c {
                out.push(SCALE);
            } else {
                out.push(0);
            }
            idx = idx + 1;
        }
        let m = Matrix { height: size, width: size, values: out };
        proof {
            assert forall|k: int| 0 <= k < m.vals().len() implies in_range(
                #[trigger] m.vals()[k]) by {
                assert(m.vals()[k] == out@[k] as int);
            }
            assert forall|i: int, j: int| 0 <= i < size && 0 <= j < size implies m.val(i, j)
                == (if i == j {
                SCALE as int
            } else {
                0
            }) by {
                lemma_grid_index(i, j, size as int, size as int);
                let idx = i * (size as int) + j;
                assert(idx / (size as int) == i && idx % (size as int) == j) by (nonlinear_arith)
                    requires
                        0 <= i,
                        0 <= j < size as int,
                        1 <= size as int,
                        idx == i * (size as int) + j,
                ;
                assert(m.val(i, j) == m.vals()[idx]);
                assert(m.vals()[idx] == out@[idx] as int);
            }
        }
        m
    }

    /// The entry at the given row and column.
    pub fn get(&self, i: usize, j: usize) -> (r: i128)
        requires
            self.wf(),
            i < self.height(),
            j < self.width(),
        ensures
            r as int == self.val(i as int, j as int),
            in_range(r as int),
    {
        proof {
            lemma_grid_index(i as int, j as int, self.height(), self.width());
            lemma_dims_small(self.height(), self.width());
            assert(in_range(self.vals()[(i as int) * self.width() + (j as int)]));
        }
        self.values[i * self.width + j]
    }

    /// The matrix with rows and columns exchanged.
    pub fn transpose(&self) -> (r: Matrix)
        requires
            self.wf(),
        ensures
            r.height() == self.width(),
            r.width() == self.height(),
            r.wf(),
            forall|i: int, j: int|
                0 <= i < r.height() && 0 <= j < r.width() ==> r.val(i, j) == self.val(j, i),
    {
        let h: usize = self.width;
        let w: usize = self.height;
        proof {
            lemma_dims_small(h as int, w as int);
        }
        let n: usize = h * w;
        let mut out: Vec<i128> = Vec::new();
        let mut idx: usize = 0;
        while idx < n
            invariant
                idx <= n,
                n == h * w,
                h == self.width(),
                w == self.height(),
                self.wf(),
                out@.len() == idx,
                forall|k: int|
                    0 <= k < idx ==> #[trigger] out@[k] as int == self.val(
                        k % (w as int),
                        k / (w as int),
                    ),
            decreases n - idx,
        {
            let a: usize = idx / w;
            let b: usize = idx % w;
            proof {
                lemma_grid_coords(idx as int, w as int);
                assert((idx as int) / (w as int) < h as int) by (nonlinear_arith)
                    requires
                        (idx as int) < (h as int) * (w as int),
                        ((idx as int) / (w as int)) * (w as int) + (idx as int) % (w as int)
                            == idx as int,
                        0 <= (idx as int) % (w as int) < w as int,
                        0 <= (idx as int) / (w as int),
                        1 <= w as int,
                ;
            }
            out.push(self.get(b, a));
            idx = idx + 1;
        }
        let m = Matrix { height: h, width: w, values: out };
        proof {
            assert forall|k: int| 0 <= k < m.vals().len() implies in_range(
                #[trigger] m.vals()[k]) by {
                assert(m.vals()[k] == out@[k] as int);
                lemma_grid_coords(k, w as int);
                let a = k / (w as int);
                let b = k % (w as int);
                assert(a < h as int) by (nonlinear_arith)
                    requires
                        k < (h as int) * (w as int),
                        a * (w as int) + b == k,
                        0 <= b < w as int,
                        0 <= a,
                        1 <= w as int,
                ;
                lemma_grid_index(b, a, self.height(), self.width());
            }
            assert forall|i: int, j: int| 0 <= i < m.height() && 0 <= j < m.width() implies
                m.val(i, j) == self.val(j, i) by {
                lemma_grid_index(i, j, h as int, w as int);
                let k = i * (w as int) + j;
                assert(k / (w as int) == i && k % (w as int) == j) by (nonlinear_arith)
                    requires
                        0 <= i,
                        0 <= j < w as int,
                        1 <= w as int,
                        k == i * (w as int) + j,
                ;
                assert(m.val(i, j) == m.vals()[k]);
                assert(m.vals()[k] == out@[k] as int);
            }
        }
        m
    }
}

} // verus!

verus! {

impl Matrix {
    /// The matrix product `self * rhs`.
    pub fn times(&self, rhs: &Matrix) -> (r: Matrix)
        requires
            self.wf(),
            rhs.wf(),
            self.width() == rhs.height(),
        ensures
            r.height() == self.height(),
            r.width() == rhs.width(),
            r.wf(),
            forall|i: int, j: int|
                0 <= i < r.height() && 0 <= j < r.width() ==> r.val(i, j) == spec_cell_k(
                    self.width(),
                    self.vals(),
                    rhs.width(),
                    rhs.vals(),
                    i,
                    j,
                    self.width() as nat,
                ),
    {
        let h: usize = self.height;
        let w: usize = rhs.width;
        let d: usize = self.width;
        proof {
            lemma_dims_small(h as int, w as int);
        }
        let n: usize = h * w;
        let mut out: Vec<i128> = Vec::new();
        let mut idx: usize = 0;
        while idx < n
            invariant
                idx <= n,
                n == h * w,
                h == self.height(),
                w == rhs.width(),
                d == self.width(),
                d == rhs.height(),
                self.wf(),
                rhs.wf(),
                out@.len() == idx,
                forall|k: int|
                    0 <= k < idx ==> #[trigger] out@[k] as int == spec_cell_k(
                        self.width(),
                        self.vals(),
                        rhs.width(),
                        rhs.vals(),
                        k / (w as int),
                        k % (w as int),
                        d as nat,
                    ) && in_range(out@[k] as int),
            decreases n - idx,
        {
            let i: usize = idx / w;
            let j: usize = idx % w;
            proof {
                lemma_grid_coords(idx as int, w as int);
                assert((idx as int) / (w as int) < h as int) by (nonlinear_arith)
                    requires
                        (idx as int) < (h as int) * (w as int),
                        ((idx as int) / (w as int)) * (w as int) + (idx as int) % (w as int)
                            == idx as int,
                        0 <= (idx as int) % (w as int) < w as int,
                        0 <= (idx as int) / (w as int),
                        1 <= w as int,
                ;
            }
            let mut acc: i128 = 0;
            let mut k: usize = 0;
            while k < d
                invariant
                    k <= d,
                    i < h,
                    j < w,
                    h == self.height(),
                    w == rhs.width(),
                    d == self.width(),
                    d == rhs.height(),
                    self.wf(),
                    rhs.wf(),
                    acc as int == spec_cell_k(
                        self.width(),
                        self.vals(),
                        rhs.width(),
                        rhs.vals(),
                        i as int,
                        j as int,
                        k as nat,
                    ),
                    in_range(acc as int),
                decreases d - k,
            {
                acc = fadd(acc, fmul(self.get(i, k), rhs.get(k, j)));
                k = k + 1;
            }
            out.push(acc);
            idx = idx + 1;
        }
        let m = Matrix { height: h, width: w, values: out };
        proof {
            assert forall|k: int| 0 <= k < m.vals().len() implies in_range(
                #[trigger] m.vals()[k]) by {
                assert(m.vals()[k] == out@[k] as int);
            }
            assert forall|i: int, j: int| 0 <= i < m.height() && 0 <= j < m.width() implies
                m.val(i, j) == spec_cell_k(
                self.width(),
                self.vals(),
                rhs.width(),
                rhs.vals(),
                i,
                j,
                self.width() as nat,
            ) by {
                lemma_grid_index(i, j, h as int, w as int);
                let k = i * (w as int) + j;
                assert(k / (w as int) == i && k % (w as int) == j) by (nonlinear_arith)
                    requires
                        0 <= i,
                        0 <= j < w as int,
                        1 <= w as int,
                        k == i * (w as int) + j,
                ;
                assert(m.val(i, j) == m.vals()[k]);
                assert(m.vals()[k] == out@[k] as int);
            }
        }
        m
    }

    /// This transform followed by `other`: the product `other * self`.
    pub fn then(&self, other: &Matrix) -> (r: Matrix)
        requires
            self.wf(),
            other.wf(),
            other.width() == self.height(),
        ensures
            r.height() == other.height(),
            r.width() == self.width(),
            r.wf(),
            forall|i: int, j: int|
                0 <= i < r.height() && 0 <= j < r.width() ==> r.val(i, j) == spec_cell_k(
                    other.width(),
                    other.vals(),
                    self.width(),
                    self.vals(),
                    i,
                    j,
                    other.width() as nat,
                ),
    {
        other.times(self)
    }

    /// The matrix applied to a point (homogeneous coordinate one).
    pub fn mul_point(&self, p: Point) -> (r: Point)
        requires
            self.wf(),
            self.is4x4(),
            p.wf(),
        ensures
            r == spec_mul_point(*self, p),
            r.x as int == spec_apply_row(4, self.vals(), 0, p.x as int, p.y as int, p.z as int, SCALE as int),
            r.y as int == spec_apply_row(4, self.vals(), 1, p.x as int, p.y as int, p.z as int, SCALE as int),
            r.z as int == spec_apply_row(4, self.vals(), 2, p.x as int, p.y as int, p.z as int, SCALE as int),
            r.wf(),
    {
        let x = fadd(
            fadd(fadd(fmul(self.get(0, 0), p.x), fmul(self.get(0, 1), p.y)), fmul(self.get(0, 2), p.z)),
            fmul(self.get(0, 3), SCALE),
        );
        let y = fadd(
            fadd(fadd(fmul(self.get(1, 0), p.x), fmul(self.get(1, 1), p.y)), fmul(self.get(1, 2), p.z)),
            fmul(self.get(1, 3), SCALE),
        );
        let z = fadd(
            fadd(fadd(fmul(self.get(2, 0), p.x), fmul(self.get(2, 1), p.y)), fmul(self.get(2, 2), p.z)),
            fmul(self.get(2, 3), SCALE),
        );
        Point { x, y, z }
    }

    /// The matrix applied to a vector (homogeneous coordinate zero).
    pub fn mul_vector(&self, v: Vector) -> (r: Vector)
        requires
            self.wf(),
            self.is4x4(),
            v.wf(),
        ensures
            r == spec_mul_vector(*self, v),
            r.x as int == spec_apply_row(4, self.vals(), 0, v.x as int, v.y as int, v.z as int, 0),
            r.y as int == spec_apply_row(4, self.vals(), 1, v.x as int, v.y as int, v.z as int, 0),
            r.z as int == spec_apply_row(4, self.vals(), 2, v.x as int, v.y as int, v.z as int, 0),
            r.wf(),
    {
        let x = fadd(
            fadd(fadd(fmul(self.get(0, 0), v.x), fmul(self.get(0, 1), v.y)), fmul(self.get(0, 2), v.z)),
            fmul(self.get(0, 3), 0),
        );
        let y = fadd(
            fadd(fadd(fmul(self.get(1, 0), v.x), fmul(self.get(1, 1), v.y)), fmul(self.get(1, 2), v.z)),
            fmul(self.get(1, 3), 0),
        );
        let z = fadd(
            fadd(fadd(fmul(self.get(2, 0), v.x), fmul(self.get(2, 1), v.y)), fmul(self.get(2, 2), v.z)),
            fmul(self.get(2, 3), 0),
        );
        Vector { x, y, z }
    }

    /// The matrix left after removing one row and one column.
    pub fn submatrix(&self, row: usize, col: usize) -> (r: Matrix)
        requires
            self.wf(),
            self.height() >= 2,
            self.width() >= 2,
            row < self.height(),
            col < self.width(),
        ensures
            r.height() == self.height() - 1,
            r.width() == self.width() - 1,
            r.wf(),
            r.vals() == sub_grid(self.height(), self.width(), self.vals(), row as int, col as int),
    {
        let h: usize = self.height - 1;
        let w: usize = self.width - 1;
        proof {
            lemma_dims_small(h as int, w as int);
        }
        let n: usize = h * w;
        let mut out: Vec<i128> = Vec::new();
        let mut idx: usize = 0;
        while idx < n
            invariant
                idx <= n,
                n == h * w,
                h == self.height() - 1,
                w == self.width() - 1,
                1 <= h,
                1 <= w,
                row < self.height(),
                col < self.width(),
                self.wf(),
                out@.len() == idx,
                forall|k: int|
                    0 <= k < idx ==> #[trigger] out@[k] as int == sub_grid(
                        self.height(),
                        self.width(),
                        self.vals(),
                        row as int,
                        col as int,
                    )[k],
            decreases n - idx,
        {
            let i: usize = idx / w;
            let j: usize = idx % w;
            proof {
                lemma_grid_coords(idx as int, w as int);
                assert((idx as int) / (w as int) < h as int) by (nonlinear_arith)
                    requires
                        (idx as int) < (h as int) * (w as int),
                        ((idx as int) / (w as int)) * (w as int) + (idx as int) % (w as int)
                            == idx as int,
                        0 <= (idx as int) % (w as int) < w as int,
                        0 <= (idx as int) / (w as int),
                        1 <= w as int,
                ;
            }
            let si: usize = if i < row {
                i
            } else {
                i + 1
            };
            let sj: usize = if j < col {
                j
            } else {
                j + 1
            };
            out.push(self.get(si, sj));
            idx = idx + 1;
        }
        let m = Matrix { height: h, width: w, values: out };
        proof {
            let sg = sub_grid(self.height(), self.width(), self.vals(), row as int, col as int);
            assert forall|k: int| 0 <= k < m.vals().len() implies in_range(
                #[trigger] m.vals()[k]) by {
                assert(m.vals()[k] == out@[k] as int);
                lemma_grid_coords(k, w as int);
                let i = k / (w as int);
                let j = k % (w as int);
                let si = if i < row as int { i } else { i + 1 };
                let sj = if j < col as int { j } else { j + 1 };
                assert(i < h as int) by (nonlinear_arith)
                    requires
                        k < (h as int) * (w as int),
                        i * (w as int) + j == k,
                        0 <= j < w as int,
                        0 <= i,
                        1 <= w as int,
                ;
                lemma_grid_index(si, sj, self.height(), self.width());
            }
            assert(m.vals() =~= sg);
        }
        m
    }

    /// The determinant of the submatrix at `(row, col)`.
    pub fn minor(&self, row: usize, col: usize) -> (r: i128)
        requires
            self.wf(),
            self.height() == self.width(),
            self.height() >= 2,
            row < self.height(),
            col < self.width(),
        ensures
            r as int == spec_det(
                self.height() - 1,
                self.width() - 1,
                sub_grid(self.height(), self.width(), self.vals(), row as int, col as int),
            ),
            in_range(r as int),
        decreases self.height(), 0int,
    {
        let sub = self.submatrix(row, col);
        sub.determinant()
    }

    /// The cofactor at `(row, col)`: the minor, signed by position parity.
    pub fn cofactor(&self, row: usize, col: usize) -> (r: i128)
        requires
            self.wf(),
            self.height() == self.width(),
            self.height() >= 2,
            row < self.height(),
            col < self.width(),
        ensures
            r as int == spec_cof(
                self.height(),
                self.width(),
                self.vals(),
                row as int,
                col as int,
            ),
            in_range(r as int),
        decreases self.height(), 1int,
    {
        let m = self.minor(row, col);
        if (row + col) % 2 == 0 {
            m
        } else {
            fneg(m)
        }
    }

    /// The determinant: the direct formula at size two, cofactor expansion
    /// along row zero above that, zero at size one.
    pub fn determinant(&self) -> (r: i128)
        requires
            self.wf(),
            self.height() == self.width(),
        ensures
            r as int == spec_det(self.height(), self.width(), self.vals()),
            in_range(r as int),
        decreases self.height(), 2int,
    {
        if self.height < 2 {
            return 0;
        }
        if self.height == 2 {
            return fsub(
                fmul(self.get(0, 0), self.get(1, 1)),
                fmul(self.get(0, 1), self.get(1, 0)),
            );
        }
        let mut acc: i128 = 0;
        let mut c: usize = 0;
        while c < self.width
            invariant
                c <= self.width(),
                self.wf(),
                self.height() == self.width(),
                self.height() >= 3,
                acc as int == spec_det_row(self.height(), self.width(), self.vals(), c as nat),
                in_range(acc as int),
            decreases self.width() - c, self.height(), 1int,
        {
            acc = fadd(acc, fmul(self.get(0, c), self.cofactor(0, c)));
            c = c + 1;
        }
        acc
    }

    /// Whether the determinant is nonzero.
    pub fn invertible(&self) -> (r: bool)
        requires
            self.wf(),
            self.height() == self.width(),
        ensures
            r == (spec_det(self.height(), self.width(), self.vals()) != 0),
    {
        self.determinant() != 0
    }

    /// The inverse: the transposed cofactor matrix over the determinant.
    /// `None` exactly when the determinant is zero.
    pub fn inverse(&self) -> (r: Option<Matrix>)
        requires
            self.wf(),
            self.height() == self.width(),
        ensures
            r is Some <==> spec_det(self.height(), self.width(), self.vals()) != 0,
            r matches Some(m) ==> {
                &&& m.height() == self.height()
                &&& m.width() == self.width()
                &&& m.wf()
                &&& forall|i: int, j: int|
                    0 <= i < m.height() && 0 <= j < m.width() ==> m.val(i, j) == sat_div(
                        spec_cof(self.height(), self.width(), self.vals(), j, i),
                        spec_det(self.height(), self.width(), self.vals()),
                    )
            },
    {
        let det = self.determinant();
        if det == 0 {
            return None;
        }
        let h: usize = self.height;
        let w: usize = self.width;
        proof {
            lemma_dims_small(h as int, w as int);
        }
        let n: usize = h * w;
        let mut out: Vec<i128> = Vec::new();
        let mut idx: usize = 0;
        while idx < n
            invariant
                idx <= n,
                n == h * w,
                h == self.height(),
                w == self.width(),
                h == w,
                2 <= h,
                self.wf(),
                det != 0,
                det as int == spec_det(self.height(), self.width(), self.vals()),
                in_range(det as int),
                out@.len() == idx,
                forall|k: int|
                    0 <= k < idx ==> #[trigger] out@[k] as int == sat_div(
                        spec_cof(
                            self.height(),
                            self.width(),
                            self.vals(),
                            k % (w as int),
                            k / (w as int),
                        ),
                        spec_det(self.height(), self.width(), self.vals()),
                    ),
            decreases n - idx,
        {
            let i: usize = idx / w;
            let j: usize = idx % w;
            proof {
                lemma_grid_coords(idx as int, w as int);
                assert((idx as int) / (w as int) < h as int) by (nonlinear_arith)
                    requires
                        (idx as int) < (h as int) * (w as int),
                        ((idx as int) / (w as int)) * (w as int) + (idx as int) % (w as int)
                            == idx as int,
                        0 <= (idx as int) % (w as int) < w as int,
                        0 <= (idx as int) / (w as int),
                        1 <= w as int,
                ;
            }
            out.push(fdiv(self.cofactor(j, i), det));
            idx = idx + 1;
        }
        let m = Matrix { height: h, width: w, values: out };
        proof {
            assert forall|k: int| 0 <= k < m.vals().len() implies in_range(
                #[trigger] m.vals()[k]) by {
                assert(m.vals()[k] == out@[k] as int);
            }
            assert forall|i: int, j: int| 0 <= i < m.height() && 0 <= j < m.width() implies
                m.val(i, j) == sat_div(
                spec_cof(self.height(), self.width(), self.vals(), j, i),
                spec_det(self.height(), self.width(), self.vals()),
            ) by {
                lemma_grid_index(i, j, h as int, w as int);
                let k = i * (w as int) + j;
                assert(k / (w as int) == i && k % (w as int) == j) by (nonlinear_arith)
                    requires
                        0 <= i,
                        0 <= j < w as int,
                        1 <= w as int,
                        k == i * (w as int) + j,
                ;
                assert(m.val(i, j) == m.vals()[k]);
                assert(m.vals()[k] == out@[k] as int);
            }
        }
        Some(m)
    }

    /// Approximate equality: the same size, entries within `EPS`.
    pub fn almost_eq(&self, o: &Matrix) -> (r: bool)
        requires
            self.wf(),
            o.wf(),
        ensures
            r == (self.height() == o.height() && self.width() == o.width() && forall|k: int|
                0 <= k < self.vals().len() ==> spec_almost(
                    #[trigger] self.vals()[k],
                    o.vals()[k],
                )),
    {
        if self.height != o.height || self.width != o.width {
            return false;
        }
        proof {
            lemma_dims_small(self.height(), self.width());
        }
        let n: usize = self.height * self.width;
        let mut idx: usize = 0;
        while idx < n
            invariant
                idx <= n,
                n == self.height() * self.width(),
                self.height() == o.height(),
                self.width() == o.width(),
                self.wf(),
                o.wf(),
                forall|k: int|
                    0 <= k < idx ==> spec_almost(#[trigger] self.vals()[k], o.vals()[k]),
            decreases n - idx,
        {
            let a: i128 = self.values[idx];
            let b: i128 = o.values[idx];
            proof {
                assert(self.vals()[idx as int] == a as int);
                assert(o.vals()[idx as int] == b as int);
                assert(in_range(self.vals()[idx as int]));
                assert(in_range(o.vals()[idx as int]));
            }
            if !crate::fixed::almost(a, b) {
                return false;
            }
            idx = idx + 1;
        }
        true
    }
}

} // verus!

