//! A shape in the world: a primitive bound to a transform and a material,
//! with the inverse and inverse-transpose cached at construction.

use crate::display::color::Color;
use crate::fixed::in_range;
use crate::geometry::matrix::{spec_mul_point, spec_mul_vector, Matrix};
use crate::geometry::point::Point;
use crate::geometry::vector::{spec_normalize, Vector};
use crate::tracing::intersection::Intersection;
use crate::tracing::material::{spec_lighting, Material};
use crate::tracing::point_light::PointLight;
use crate::tracing::ray::{spec_transform_ray, Ray};
use crate::tracing::shapes::cube::{spec_cube_normal, spec_cube_times, Cube};
use crate::tracing::shapes::cylinder::{
    spec_cylinder_normal, spec_cylinder_times, Cylinder,
};
use crate::tracing::shapes::plane::{spec_plane_normal, spec_plane_times, Plane};
use crate::tracing::shapes::sphere::{spec_sphere_normal, spec_sphere_times, Sphere};
use vstd::prelude::*;

verus! {

/// The geometry of a shape: one of the canonical primitives.
#[derive(Clone, Copy, Debug, PartialEq, Eq, Structural)]
pub enum Primitive {
    Sphere(Sphere),
    Plane(Plane),
    Cube(Cube),
    Cylinder(Cylinder),
}

impl Primitive {
    /// Any held bounds are storable.
    pub open spec fn wf(self) -> bool {
        match self {
            Primitive::Cylinder(c) => c.wf(),
            _ => true,
        }
    }
}

/// The local intersection times of a primitive.
pub open spec fn spec_primitive_times(p: Primitive, r: Ray) -> Seq<int> {
    match p {
        Primitive::Sphere(_) => spec_sphere_times(r),
        Primitive::Plane(_) => spec_plane_times(r),
        Primitive::Cube(_) => spec_cube_times(r),
        Primitive::Cylinder(c) => spec_cylinder_times(c, r),
    }
}

/// The local normal of a primitive.
pub open spec fn spec_primitive_normal(p: Primitive, point: Point) -> Vector {
    match p {
        Primitive::Sphere(_) => spec_sphere_normal(point),
        Primitive::Plane(_) => spec_plane_normal(point),
        Primitive::Cube(_) => spec_cube_normal(point),
        Primitive::Cylinder(c) => spec_cylinder_normal(c, point),
    }
}

/// A primitive with a world transform and a material.  The inverse and its
/// transpose are computed once, when the transform is set.
#[derive(Clone, Debug)]
pub struct Shape {
    pub geometry: Primitive,
    pub material: Material,
    pub transformation: Matrix,
    pub transform_inverse: Matrix,
    pub transform_inverse_transpose: Matrix,
}

/// The world-space intersection times of a shape: the primitive's times
/// against the ray carried into local space by the cached inverse.
pub open spec fn spec_shape_times(s: Shape, r: Ray) -> Seq<int> {
    spec_primitive_times(s.geometry, spec_transform_ray(r, s.transform_inverse))
}

/// The world-space normal of a shape: the local normal carried back by the
/// transposed inverse, normalized.
pub open spec fn spec_shape_normal(s: Shape, world_point: Point) -> Vector {
    let local_point = spec_mul_point(s.transform_inverse, world_point);
    let local_normal = spec_primitive_normal(s.geometry, local_point);
    let world_normal = spec_mul_vector(s.transform_inverse_transpose, local_normal);
    spec_normalize(world_normal)
}

/// What a shape's surface looks like under a light: the material's Phong
/// model, sampled at the point carried into the shape's own space.
pub open spec fn spec_shape_lighting(
    s: Shape,
    light: PointLight,
    position: Point,
    eye_vector: Vector,
    normal: Vector,
    in_shadow: bool,
) -> Color {
    spec_lighting(
        s.material,
        light,
        spec_mul_point(s.transform_inverse, position),
        eye_vector,
        normal,
        in_shadow,
    )
}

impl Shape {
    /// Geometry, material and all three matrices are well-formed 4x4.
    pub open spec fn wf(self) -> bool {
        &&& self.geometry.wf()
        &&& self.material.wf()
        &&& self.transformation.wf()
        &&& self.transformation.is4x4()
        &&& self.transform_inverse.wf()
        &&& self.transform_inverse.is4x4()
        &&& self.transform_inverse_transpose.wf()
        &&& self.transform_inverse_transpose.is4x4()
    }

    /// A unit sphere with the default material and no transform.
    pub fn sphere() -> (r: Shape)
        ensures
            r.geometry == Primitive::Sphere(Sphere {}),
            r.wf(),
            identity_transform(r),
    {
        Shape::using(Primitive::Sphere(Sphere::new()))
    }

    /// The xz plane with the default material and no transform.
    pub fn plane() -> (r: Shape)
        ensures
            r.geometry == Primitive::Plane(Plane {}),
            r.wf(),
            identity_transform(r),
    {
        Shape::using(Primitive::Plane(Plane::new()))
    }

    /// A unit cube with the default material and no transform.
    pub fn cube() -> (r: Shape)
        ensures
            r.geometry == Primitive::Cube(Cube {}),
            r.wf(),
            identity_transform(r),
    {
        Shape::using(Primitive::Cube(Cube::new()))
    }

    /// A shape over the given primitive, with the default material and the
    /// identity transform.
    pub fn using(geometry: Primitive) -> (r: Shape)
        requires
            geometry.wf(),
        ensures
            r.geometry == geometry,
            r.wf(),
            identity_transform(r),
    {
        Shape {
            geometry,
            material: Material::default(),
            transformation: Matrix::identity(4),
            transform_inverse: Matrix::identity(4),
            transform_inverse_transpose: Matrix::identity(4),
        }
    }

    /// The same shape with another material.
    pub fn with_material(self, material: Material) -> (r: Shape)
        requires
            self.wf(),
            material.wf(),
        ensures
            r == (Shape { material, ..self }),
            r.wf(),
    {
        Shape { material, ..self }
    }

    /// The same shape under a new transform; the inverse and its transpose
    /// are cached.  `None` when the transform cannot be inverted.
    pub fn with_transform(self, transformation: Matrix) -> (r: Option<Shape>)
        requires
            self.wf(),
            transformation.wf(),
            transformation.is4x4(),
        ensures
            r is Some <==> crate::geometry::matrix::spec_det(4, 4, transformation.vals()) != 0,
            r matches Some(s) ==> {
                &&& s.geometry == self.geometry
                &&& s.material == self.material
                &&& s.transformation == transformation
                &&& s.wf()
                &&& forall|i: int, j: int|
                    0 <= i < 4 && 0 <= j < 4 ==> s.transform_inverse.val(i, j)
                        == crate::fixed::sat_div(
                        crate::geometry::matrix::spec_cof(4, 4, transformation.vals(), j, i),
                        crate::geometry::matrix::spec_det(4, 4, transformation.vals()),
                    )
                &&& forall|i: int, j: int|
                    0 <= i < 4 && 0 <= j < 4 ==> s.transform_inverse_transpose.val(i, j)
                        == s.transform_inverse.val(j, i)
            },
    {
        let inv = transformation.inverse();
        match inv {
            Option::Some(transform_inverse) => {
                let transform_inverse_transpose = transform_inverse.transpose();
                Option::Some(
                    Shape {
                        transformation,
                        transform_inverse,
                        transform_inverse_transpose,
                        ..self
                    },
                )
            },
            Option::None => Option::None,
        }
    }

    /// The shape's material.
    pub fn material(&self) -> (r: &Material)
        ensures
            *r == self.material,
    {
        &self.material
    }

    /// Where the supplied world-space ray meets this shape, each time paired
    /// with the given shape handle, in the primitive's own order.
    pub fn intersect(&self, ray: &Ray, shape_id: usize) -> (r: Vec<Intersection>)
        requires
            self.wf(),
            ray.wf(),
        ensures
            r@.len() == spec_shape_times(*self, *ray).len(),
            forall|k: int|
                0 <= k < r@.len() ==> (#[trigger] r@[k]).time as int == spec_shape_times(
                    *self,
                    *ray,
                )[k] && r@[k].shape == shape_id,
            forall|k: int| 0 <= k < r@.len() ==> in_range((#[trigger] r@[k]).time as int),
    {
        let local_ray = ray.transform(&self.transform_inverse);
        let times: Vec<i128> = match &self.geometry {
            Primitive::Sphere(s) => s.intersect(&local_ray),
            Primitive::Plane(p) => p.intersect(&local_ray),
            Primitive::Cube(c) => c.intersect(&local_ray),
            Primitive::Cylinder(c) => c.intersect(&local_ray),
        };
        let mut out: Vec<Intersection> = Vec::new();
        let mut k: usize = 0;
        while k < times.len()
            invariant
                k <= times@.len(),
                out@.len() == k,
                times@.map_values(|t: i128| t as int) =~= spec_shape_times(*self, *ray),
                forall|j: int|
                    0 <= j < k ==> (#[trigger] out@[j]).time == times@[j] && out@[j].shape
                        == shape_id,
            decreases times@.len() - k,
        {
            out.push(Intersection { time: times[k], shape: shape_id });
            k = k + 1;
        }
        proof {
            assert forall|j: int| 0 <= j < out@.len() implies (#[trigger] out@[j]).time as int
                == spec_shape_times(*self, *ray)[j] && out@[j].shape == shape_id by {
                assert(times@.map_values(|t: i128| t as int)[j] == times@[j] as int);
            }
        }
        out
    }

    /// The normal vector of this shape at the world-space point provided.
    pub fn normal_at(&self, point: Point) -> (r: Vector)
        requires
            self.wf(),
            point.wf(),
        ensures
            r == spec_shape_normal(*self, point),
            r.wf(),
    {
        let local_point = self.transform_inverse.mul_point(point);
        let local_normal = match &self.geometry {
            Primitive::Sphere(s) => s.normal_at(local_point),
            Primitive::Plane(p) => p.normal_at(local_point),
            Primitive::Cube(c) => c.normal_at(local_point),
            Primitive::Cylinder(c) => c.normal_at(local_point),
        };
        let world_normal = self.transform_inverse_transpose.mul_vector(local_normal);
        world_normal.normalize()
    }

    /// The shape's surface color under a light, with the sample point carried
    /// into the shape's own space.
    pub fn lighting(
        &self,
        light: &PointLight,
        position: Point,
        eye_vector: Vector,
        normal: Vector,
        in_shadow: bool,
    ) -> (r: Color)
        requires
            self.wf(),
            light.wf(),
            position.wf(),
            eye_vector.wf(),
            normal.wf(),
        ensures
            r == spec_shape_lighting(*self, *light, position, eye_vector, normal, in_shadow),
            r.wf(),
    {
        let transformed_point = self.transform_inverse.mul_point(position);
        self.material.lighting(light, transformed_point, eye_vector, normal, in_shadow)
    }
}

/// The shape still carries the identity transform: every cached matrix has
/// one on the diagonal and zero elsewhere.
pub open spec fn identity_transform(s: Shape) -> bool {
    &&& forall|i: int, j: int|
        0 <= i < 4 && 0 <= j < 4 ==> s.transformation.val(i, j) == if i == j {
            crate::fixed::SCALE as int
        } else {
            0
        }
    &&& forall|i: int, j: int|
        0 <= i < 4 && 0 <= j < 4 ==> s.transform_inverse.val(i, j) == if i == j {
            crate::fixed::SCALE as int
        } else {
            0
        }
    &&& forall|i: int, j: int|
        0 <= i < 4 && 0 <= j < 4 ==> s.transform_inverse_transpose.val(i, j) == if i == j {
            crate::fixed::SCALE as int
        } else {
            0
        }
}

} // verus!
