//! The camera: a resolution, a field of view and a view transform, driving
//! per-pixel primary rays into a canvas.

use crate::display::canvas::Canvas;
use crate::display::resolution::Resolution;
use crate::fixed::{
    fadd, fdiv, fmul, fsub, ftan, in_range, sat_add, sat_div, sat_mul, sat_sub, spec_tan, SCALE,
};
use crate::geometry::matrix::{spec_mul_point, Matrix};
use crate::geometry::point::{spec_sub_pp, Point};
use crate::geometry::vector::spec_normalize;
use crate::tracing::ray::Ray;
use crate::tracing::world::{spec_color_at, World};
use vstd::prelude::*;

verus! {

/// Half the camera's view width, in world units at the canvas plane.
pub open spec fn spec_half_view(field_of_view: int) -> int {
    spec_tan(sat_div(field_of_view, 2 * SCALE))
}

/// The camera's half width: the half view, shrunk by the aspect when the
/// image is taller than wide.
pub open spec fn spec_half_width(resolution: Resolution, field_of_view: int) -> int {
    let half_view = spec_half_view(field_of_view);
    let aspect = sat_div(resolution.spec_hsize() * SCALE, resolution.spec_vsize() * SCALE);
    if aspect >= SCALE {
        half_view
    } else {
        sat_mul(half_view, aspect)
    }
}

/// The camera's half height: the half view, shrunk by the aspect when the
/// image is wider than tall.
pub open spec fn spec_half_height(resolution: Resolution, field_of_view: int) -> int {
    let half_view = spec_half_view(field_of_view);
    let aspect = sat_div(resolution.spec_hsize() * SCALE, resolution.spec_vsize() * SCALE);
    if aspect >= SCALE {
        sat_div(half_view, aspect)
    } else {
        half_view
    }
}

/// A camera: resolution, field of view, view transform and its cached
/// inverse, and the precomputed half extents of the canvas plane.
#[derive(Clone, Debug)]
pub struct Camera {
    pub resolution: Resolution,
    pub field_of_view: i128,
    pub transform: Matrix,
    pub transform_inverse: Matrix,
    pub half_width: i128,
    pub half_height: i128,
}

/// The size of one pixel on the canvas plane.
pub open spec fn spec_pixel_size(c: Camera) -> int {
    sat_div(sat_add(c.half_width as int, c.half_width as int), c.resolution.spec_hsize() * SCALE)
}

/// The primary ray through the center of pixel `(x, y)`: canvas-plane point
/// and camera origin both carried into the world by the inverse view
/// transform.
pub open spec fn spec_ray_for_pixel(c: Camera, x: int, y: int) -> Ray {
    let pixel_size = spec_pixel_size(c);
    let x_offset = sat_mul(sat_add(x * SCALE, (SCALE / 2) as int), pixel_size);
    let y_offset = sat_mul(sat_add(y * SCALE, (SCALE / 2) as int), pixel_size);
    let world_x = sat_sub(c.half_width as int, x_offset);
    let world_y = sat_sub(c.half_height as int, y_offset);
    let pixel = spec_mul_point(
        c.transform_inverse,
        Point { x: world_x as i128, y: world_y as i128, z: ((-SCALE) as i128) },
    );
    let origin = spec_mul_point(c.transform_inverse, Point { x: 0, y: 0, z: 0 });
    let direction = spec_normalize(spec_sub_pp(pixel, origin));
    Ray { origin, direction }
}

impl Camera {
    /// All parts are well-formed.
    pub open spec fn wf(self) -> bool {
        &&& self.resolution.wf()
        &&& in_range(self.field_of_view as int)
        &&& self.transform.wf() && self.transform.is4x4()
        &&& self.transform_inverse.wf() && self.transform_inverse.is4x4()
        &&& in_range(self.half_width as int)
        &&& in_range(self.half_height as int)
    }

    /// A camera over the given resolution, field of view (in radian units)
    /// and view transform.  `None` when the transform cannot be inverted.
    pub fn new(resolution: Resolution, field_of_view: i128, transform: Matrix) -> (r: Option<
        Camera,
    >)
        requires
            resolution.wf(),
            in_range(field_of_view as int),
            transform.wf(),
            transform.is4x4(),
        ensures
            r is Some <==> crate::geometry::matrix::spec_det(4, 4, transform.vals()) != 0,
            r matches Some(c) ==> {
                &&& c.resolution == resolution
                &&& c.field_of_view == field_of_view
                &&& c.transform == transform
                &&& c.wf()
                &&& c.half_width as int == spec_half_width(resolution, field_of_view as int)
                &&& c.half_height as int == spec_half_height(resolution, field_of_view as int)
                &&& forall|i: int, j: int|
                    0 <= i < 4 && 0 <= j < 4 ==> c.transform_inverse.val(i, j)
                        == crate::fixed::sat_div(
                        crate::geometry::matrix::spec_cof(4, 4, transform.vals(), j, i),
                        crate::geometry::matrix::spec_det(4, 4, transform.vals()),
                    )
            },
    {
        let inv = transform.inverse();
        match inv {
            Option::Some(transform_inverse) => {
                let half_view = ftan(fdiv(field_of_view, 2 * SCALE));
                let aspect = resolution.aspect();
                let (half_width, half_height): (i128, i128) = if aspect >= SCALE {
                    (half_view, fdiv(half_view, aspect))
                } else {
                    (fmul(half_view, aspect), half_view)
                };
                Option::Some(
                    Camera {
                        resolution,
                        field_of_view,
                        transform,
                        transform_inverse,
                        half_width,
                        half_height,
                    },
                )
            },
            Option::None => Option::None,
        }
    }

    /// The size of one pixel on the canvas plane.
    pub fn pixel_size(&self) -> (r: i128)
        requires
            self.wf(),
        ensures
            r as int == spec_pixel_size(*self),
            in_range(r as int),
    {
        let hsize_units: i128 = (self.resolution.hsize() as i128) * SCALE;
        fdiv(fadd(self.half_width, self.half_width), hsize_units)
    }

    /// The primary ray through the center of a pixel.
    pub fn ray_for_pixel(&self, x: usize, y: usize) -> (r: Ray)
        requires
            self.wf(),
            x < self.resolution.spec_hsize(),
            y < self.resolution.spec_vsize(),
        ensures
            r == spec_ray_for_pixel(*self, x as int, y as int),
            r.wf(),
    {
        let hsize_units: i128 = (self.resolution.hsize() as i128) * SCALE;
        let pixel_size = fdiv(fadd(self.half_width, self.half_width), hsize_units);
        let x_offset = fmul(fadd((x as i128) * SCALE, SCALE / 2), pixel_size);
        let y_offset = fmul(fadd((y as i128) * SCALE, SCALE / 2), pixel_size);
        let world_x = fsub(self.half_width, x_offset);
        let world_y = fsub(self.half_height, y_offset);
        let pixel = self.transform_inverse.mul_point(
            Point { x: world_x, y: world_y, z: -SCALE },
        );
        let origin = self.transform_inverse.mul_point(Point { x: 0, y: 0, z: 0 });
        let direction = pixel.minus_point(origin).normalize();
        Ray::new(origin, direction)
    }

    /// The image of the world as seen from this camera: every pixel holds
    /// the color of its primary ray, whatever order they were evaluated in.
    pub fn render(&self, world: &World) -> (r: Canvas)
        requires
            self.wf(),
            world.wf(),
        ensures
            r.width as int == self.resolution.spec_hsize(),
            r.height as int == self.resolution.spec_vsize(),
            r.wf(),
            forall|x: int, y: int|
                0 <= x < r.width && 0 <= y < r.height ==> r.spec_pixel(x, y) == spec_color_at(
                    *world,
                    spec_ray_for_pixel(*self, x, y),
                    5,
                ),
    {
        let mut canvas = Canvas::new(self.resolution);
        let hsize = self.resolution.hsize();
        let vsize = self.resolution.vsize();
        let mut x: usize = 0;
        while x < hsize
            invariant
                x <= hsize,
                hsize as int == self.resolution.spec_hsize(),
                vsize as int == self.resolution.spec_vsize(),
                self.wf(),
                world.wf(),
                canvas.wf(),
                canvas.width == hsize,
                canvas.height == vsize,
                forall|a: int, b: int|
                    0 <= a < x && 0 <= b < vsize ==> canvas.spec_pixel(a, b) == spec_color_at(
                        *world,
                        spec_ray_for_pixel(*self, a, b),
                        5,
                    ),
            decreases hsize - x,
        {
            let mut y: usize = 0;
            while y < vsize
                invariant
                    x < hsize,
                    y <= vsize,
                    hsize as int == self.resolution.spec_hsize(),
                    vsize as int == self.resolution.spec_vsize(),
                    self.wf(),
                    world.wf(),
                    canvas.wf(),
                    canvas.width == hsize,
                    canvas.height == vsize,
                    forall|a: int, b: int|
                        0 <= a < x && 0 <= b < vsize ==> canvas.spec_pixel(a, b)
                            == spec_color_at(*world, spec_ray_for_pixel(*self, a, b), 5),
                    forall|b: int|
                        0 <= b < y ==> canvas.spec_pixel(x as int, b) == spec_color_at(
                            *world,
                            spec_ray_for_pixel(*self, x as int, b),
                            5,
                        ),
                decreases vsize - y,
            {
                let ray = self.ray_for_pixel(x, y);
                let color = world.color_at(&ray);
                canvas.write_pixel(x, y, color);
                y = y + 1;
            }
            x = x + 1;
        }
        canvas
    }
}

} // verus!
