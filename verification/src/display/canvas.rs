//! The rectangular pixel buffer a render writes into.

use crate::display::color::Color;
use crate::display::resolution::Resolution;
use crate::geometry::matrix::lemma_grid_index;
use vstd::prelude::*;

verus! {

/// A width x height grid of colors, row-major: the pixel at `(x, y)` sits at
/// index `y * width + x`.
#[derive(Clone, Debug)]
pub struct Canvas {
    pub width: usize,
    pub height: usize,
    pub pixels: Vec<Color>,
}

/// Pixel grids stay within the supported address range.
pub proof fn lemma_canvas_size(w: int, h: int)
    by (nonlinear_arith)
    requires
        0 <= w <= 32768,
        0 <= h <= 32768,
    ensures
        0 <= h * w <= 32768 * 32768,
        0 <= w * h <= 32768 * 32768,
{
}

impl Canvas {
    /// The buffer matches the dimensions and holds storable colors.
    pub open spec fn wf(self) -> bool {
        &&& 1 <= self.width <= 32768
        &&& 1 <= self.height <= 32768
        &&& self.pixels@.len() == self.height * self.width
        &&& forall|k: int| 0 <= k < self.pixels@.len() ==> (#[trigger] self.pixels@[k]).wf()
    }

    /// The pixel stored at `(x, y)`.
    pub open spec fn spec_pixel(self, x: int, y: int) -> Color {
        self.pixels@[y * self.width + x]
    }

    /// A canvas of the given resolution, all pixels black.
    pub fn new(resolution: Resolution) -> (r: Canvas)
        requires
            resolution.wf(),
        ensures
            r.width as int == resolution.spec_hsize(),
            r.height as int == resolution.spec_vsize(),
            r.wf(),
            forall|x: int, y: int|
                0 <= x < r.width && 0 <= y < r.height ==> r.spec_pixel(x, y) == (Color {
                    red: 0,
                    green: 0,
                    blue: 0,
                }),
    {
        let width = resolution.hsize();
        let height = resolution.vsize();
        proof {
            lemma_canvas_size(width as int, height as int);
        }
        let n: usize = height * width;
        let mut pixels: Vec<Color> = Vec::new();
        let mut idx: usize = 0;
        while idx < n
            invariant
                idx <= n,
                n == height * width,
                1 <= width <= 32768,
                1 <= height <= 32768,
                pixels@.len() == idx,
                forall|k: int|
                    0 <= k < idx ==> #[trigger] pixels@[k] == (Color {
                        red: 0,
                        green: 0,
                        blue: 0,
                    }),
            decreases n - idx,
        {
            pixels.push(Color::black());
            idx = idx + 1;
        }
        let c = Canvas { width, height, pixels };
        proof {
            assert forall|x: int, y: int| 0 <= x < c.width && 0 <= y < c.height implies c.spec_pixel(
                x,
                y,
            ) == (Color { red: 0, green: 0, blue: 0 }) by {
                lemma_grid_index(y, x, c.height as int, c.width as int);
            }
        }
        c
    }

    /// Store a color at `(x, y)`.
    pub fn write_pixel(&mut self, x: usize, y: usize, color: Color)
        requires
            old(self).wf(),
            x < old(self).width,
            y < old(self).height,
            color.wf(),
        ensures
            final(self).wf(),
            final(self).width == old(self).width,
            final(self).height == old(self).height,
            final(self).pixels@ == old(self).pixels@.update(
                y as int * old(self).width as int + x as int,
                color,
            ),
            final(self).spec_pixel(x as int, y as int) == color,
            forall|a: int, b: int|
                0 <= a < final(self).width && 0 <= b < final(self).height && !(a == x as int && b
                    == y as int) ==> final(self).spec_pixel(a, b) == old(self).spec_pixel(a, b),
    {
        let index = self.index_for(x, y);
        self.pixels.set(index, color);
        proof {
            lemma_grid_index(y as int, x as int, self.height as int, self.width as int);
            assert forall|a: int, b: int|
                0 <= a < self.width && 0 <= b < self.height && !(a == x as int && b
                    == y as int) implies self.spec_pixel(a, b) == old(self).spec_pixel(a, b) by {
                lemma_grid_index(b, a, self.height as int, self.width as int);
                assert(b * self.width + a != y * self.width + x) by (nonlinear_arith)
                    requires
                        0 <= a < self.width as int,
                        0 <= b,
                        0 <= x as int,
                        (x as int) < self.width as int,
                        0 <= y as int,
                        !(a == x as int && b == y as int),
                ;
            }
        }
    }

    /// The color at `(x, y)`.
    pub fn pixel_at(&self, x: usize, y: usize) -> (r: Color)
        requires
            self.wf(),
            x < self.width,
            y < self.height,
        ensures
            r == self.spec_pixel(x as int, y as int),
            r.wf(),
    {
        let index = self.index_for(x, y);
        proof {
            lemma_grid_index(y as int, x as int, self.height as int, self.width as int);
        }
        self.pixels[index]
    }

    /// The buffer index of `(x, y)`.
    fn index_for(&self, x: usize, y: usize) -> (r: usize)
        requires
            self.wf(),
            x < self.width,
            y < self.height,
        ensures
            r == y as int * self.width as int + x as int,
            r < self.pixels@.len(),
    {
        proof {
            lemma_grid_index(y as int, x as int, self.height as int, self.width as int);
            lemma_canvas_size(self.width as int, self.height as int);
        }
        y * self.width + x
    }
}

} // verus!
