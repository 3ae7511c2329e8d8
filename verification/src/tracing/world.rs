//! The world: shapes and a light, answering ray intersections, shadow
//! queries, and recursive color evaluation under a bounce budget.

use crate::display::color::{spec_add_c, spec_scale_c, Color};
use crate::fixed::{
    fdiv, fmul, fsqrt, fsub, in_range, sat_div, sat_mul, sat_sqrt, sat_sub, LIM, SCALE,
};
use crate::geometry::point::{spec_sub_pp, Point};
use crate::geometry::transformations::scaling;
use crate::geometry::vector::{
    spec_dot, spec_magnitude, spec_normalize, spec_scale_v, spec_sub_vv,
};
use crate::tracing::intersection::{
    lemma_hit_properties, lemma_walk_bounds, spec_hit, spec_precompute, spec_schlick, spec_sort,
    Intersection, Intersections, PreComputedIntersection,
};
use crate::tracing::material::Material;
use crate::tracing::point_light::PointLight;
use crate::tracing::ray::Ray;
use crate::tracing::shapes::shape::{spec_shape_lighting, spec_shape_times, Shape};
use vstd::prelude::*;

verus! {

/// The scene: an ordered list of shapes, one point light, and whether
/// shadow tests run.
#[derive(Clone, Debug)]
pub struct World {
    pub objects: Vec<Shape>,
    pub light_source: PointLight,
    pub shadows_enabled: bool,
}

/// The intersection records of one shape's times, all carrying its handle.
pub open spec fn spec_wrap_times(ts: Seq<int>, id: int) -> Seq<Intersection> {
    Seq::new(ts.len(), |j: int| Intersection { time: ts[j] as i128, shape: id as usize })
}

/// Every shape's intersections with a ray, shape by shape, unsorted.
pub open spec fn spec_collect(objects: Seq<Shape>, r: Ray, k: nat) -> Seq<Intersection>
    decreases k,
{
    if k == 0 {
        Seq::empty()
    } else {
        spec_collect(objects, r, (k - 1) as nat) + spec_wrap_times(
            spec_shape_times(objects[k - 1], r),
            k - 1,
        )
    }
}

/// The world's intersections with a ray, sorted by time.
pub open spec fn spec_intersected_by(w: World, r: Ray) -> Seq<Intersection> {
    spec_sort(spec_collect(w.objects@, r, w.objects@.len()))
}

/// Every record points at a shape of the world and stores a storable time.
pub open spec fn spec_entries_ok(s: Seq<Intersection>, n: int) -> bool {
    forall|k: int|
        0 <= k < s.len() ==> (#[trigger] s[k]).shape < n && in_range(s[k].time as int)
}

/// Whether a point lies in shadow: some intersection of the ray toward the
/// light comes back before the light itself.
pub open spec fn spec_is_shadowed(w: World, point: Point) -> bool {
    if !w.shadows_enabled {
        false
    } else {
        let point_to_light = spec_sub_pp(w.light_source.position, point);
        let distance = spec_magnitude(point_to_light);
        let direction = spec_normalize(point_to_light);
        let ray = Ray { origin: point, direction };
        match spec_hit(spec_intersected_by(w, ray)) {
            Option::Some(h) => (h.time as int) < distance,
            Option::None => false,
        }
    }
}

/// The color a ray produces, under a bounce budget.
pub open spec fn spec_color_at(w: World, ray: Ray, remaining: nat) -> Color
    decreases remaining, 3int,
{
    let xs = spec_intersected_by(w, ray);
    match spec_hit(xs) {
        Option::Some(h) => spec_shade_hit(w, spec_precompute(h, ray, xs, w.objects@), remaining),
        Option::None => Color { red: 0, green: 0, blue: 0 },
    }
}

/// The color of a precomputed hit: the surface's own Phong color, plus the
/// reflected and refracted contributions, coupled by the Schlick
/// reflectance when the material is both reflective and transparent.
pub open spec fn spec_shade_hit(w: World, pre: PreComputedIntersection, remaining: nat) -> Color
    decreases remaining, 2int,
{
    let in_shadow = spec_is_shadowed(w, pre.over_point);
    let surface = spec_shape_lighting(
        w.objects@[pre.shape as int],
        w.light_source,
        pre.over_point,
        pre.eye_vector,
        pre.normal_vector,
        in_shadow,
    );
    let reflected = spec_reflect_color(w, pre, remaining);
    let refracted = spec_refracted_color(w, pre, remaining);
    let m = w.objects@[pre.shape as int].material;
    if m.spec_reflective() > 0 && m.spec_transparency() > 0 {
        let reflectance = spec_schlick(pre);
        spec_add_c(
            spec_add_c(surface, spec_scale_c(reflected, reflectance)),
            spec_scale_c(refracted, sat_sub(SCALE as int, reflectance)),
        )
    } else {
        spec_add_c(spec_add_c(surface, reflected), refracted)
    }
}

/// The reflected contribution: black when the budget is exhausted or the
/// material does not reflect, else the color of the reflection ray, scaled.
pub open spec fn spec_reflect_color(w: World, pre: PreComputedIntersection, remaining: nat) -> Color
    decreases remaining, 1int,
{
    let m = w.objects@[pre.shape as int].material;
    if remaining == 0 {
        Color { red: 0, green: 0, blue: 0 }
    } else if !(m.spec_reflective() > 0) {
        Color { red: 0, green: 0, blue: 0 }
    } else {
        let reflect_ray = Ray { origin: pre.over_point, direction: pre.reflect_vector };
        spec_scale_c(spec_color_at(w, reflect_ray, (remaining - 1) as nat), m.spec_reflective())
    }
}

/// The refracted contribution: black when the budget is exhausted, the
/// material is opaque, or total internal reflection strikes; else the color
/// of the refraction ray, scaled.
pub open spec fn spec_refracted_color(w: World, pre: PreComputedIntersection,
    remaining: nat) -> Color
    decreases remaining, 1int,
{
    let m = w.objects@[pre.shape as int].material;
    if remaining == 0 {
        Color { red: 0, green: 0, blue: 0 }
    } else if m.spec_transparency() == 0 {
        Color { red: 0, green: 0, blue: 0 }
    } else {
        let n_ratio = sat_div(pre.n1 as int, pre.n2 as int);
        let cos_i = spec_dot(pre.eye_vector, pre.normal_vector);
        let sin2_t = sat_mul(
            sat_mul(n_ratio, n_ratio),
            sat_sub(SCALE as int, sat_mul(cos_i, cos_i)),
        );
        if sin2_t > SCALE {
            Color { red: 0, green: 0, blue: 0 }
        } else {
            let cos_t = sat_sqrt(sat_sub(SCALE as int, sin2_t));
            let direction = spec_sub_vv(
                spec_scale_v(pre.normal_vector, sat_sub(sat_mul(n_ratio, cos_i), cos_t)),
                spec_scale_v(pre.eye_vector, n_ratio),
            );
            let refract_ray = Ray { origin: pre.under_point, direction };
            spec_scale_c(
                spec_color_at(w, refract_ray, (remaining - 1) as nat),
                m.spec_transparency(),
            )
        }
    }
}

impl World {
    /// Shapes and light are well-formed.
    pub open spec fn wf(self) -> bool {
        &&& forall|k: int| 0 <= k < self.objects@.len() ==> (#[trigger] self.objects@[k]).wf()
        &&& self.light_source.wf()
    }

    /// A world with nothing in it, lit by a black light.
    pub fn empty() -> (r: World)
        ensures
            r.objects@.len() == 0,
            r.shadows_enabled,
            r.wf(),
    {
        World::new(Vec::new(), PointLight::black_light())
    }

    /// The classic two-sphere test world under the default light.
    pub fn default_world() -> (r: World)
        ensures
            r.objects@.len() == 2,
            r.light_source.position.x as int == -10 * SCALE,
            r.light_source.position.y as int == 10 * SCALE,
            r.light_source.position.z as int == -10 * SCALE,
            r.light_source.intensity == (Color { red: SCALE, green: SCALE, blue: SCALE }),
            r.shadows_enabled,
            r.wf(),
    {
        let outer_sphere_material = Material::solid_colored(
            Color::new(8 * SCALE / 10, SCALE, 6 * SCALE / 10),
            SCALE / 10,
            7 * SCALE / 10,
            2 * SCALE / 10,
            200 * SCALE,
            0,
            0,
            SCALE,
        );
        let outer_sphere = Shape::sphere().with_material(outer_sphere_material);
        let inner_sphere = match Shape::sphere().with_transform(
            scaling(SCALE / 2, SCALE / 2, SCALE / 2),
        ) {
            Option::Some(s) => s,
            Option::None => Shape::sphere(),
        };
        let mut objects: Vec<Shape> = Vec::new();
        objects.push(outer_sphere);
        objects.push(inner_sphere);
        World::new(objects, PointLight::default_light())
    }

    /// A world over the given shapes and light, shadows enabled.
    pub fn new(objects: Vec<Shape>, light_source: PointLight) -> (r: World)
        requires
            forall|k: int| 0 <= k < objects@.len() ==> (#[trigger] objects@[k]).wf(),
            light_source.wf(),
        ensures
            r.objects@ == objects@,
            r.light_source == light_source,
            r.shadows_enabled,
            r.wf(),
    {
        World { objects, light_source, shadows_enabled: true }
    }

    /// The same world with shadow tests switched off.
    pub fn without_shadows(self) -> (r: World)
        requires
            self.wf(),
        ensures
            r.objects@ == self.objects@,
            r.light_source == self.light_source,
            !r.shadows_enabled,
            r.wf(),
    {
        World {
            objects: self.objects,
            light_source: self.light_source,
            shadows_enabled: false,
        }
    }

    /// The same world with one more shape.
    pub fn plus_shape(self, new_shape: Shape) -> (r: World)
        requires
            self.wf(),
            new_shape.wf(),
        ensures
            r.objects@ == self.objects@.push(new_shape),
            r.light_source == self.light_source,
            r.wf(),
            r.shadows_enabled,
    {
        let mut objects = self.objects;
        objects.push(new_shape);
        proof {
            assert forall|k: int| 0 <= k < objects@.len() implies (
            #[trigger] objects@[k]).wf() by {
                if k < objects@.len() - 1 {
                    assert(objects@[k] == self.objects@[k]);
                }
            }
        }
        World::new(objects, self.light_source)
    }

    /// How many shapes the world holds.
    pub fn object_count(&self) -> (r: usize)
        ensures
            r == self.objects@.len(),
    {
        self.objects.len()
    }

    /// The world's intersections with a ray, sorted by time.
    pub fn intersected_by(&self, ray: &Ray) -> (r: Intersections)
        requires
            self.wf(),
            ray.wf(),
        ensures
            r.items@ == spec_intersected_by(*self, *ray),
            r.wf(),
            spec_entries_ok(r.items@, self.objects@.len() as int),
    {
        let mut collected: Vec<Intersection> = Vec::new();
        let mut i: usize = 0;
        while i < self.objects.len()
            invariant
                i <= self.objects@.len(),
                self.wf(),
                ray.wf(),
                collected@ == spec_collect(self.objects@, *ray, i as nat),
                spec_entries_ok(collected@, self.objects@.len() as int),
            decreases self.objects@.len() - i,
        {
            let ghost pre = collected@;
            let mut found = self.objects[i].intersect(ray, i);
            let ghost fo = found@;
            let mut j: usize = 0;
            while j < found.len()
                invariant
                    j <= fo.len(),
                    found@ == fo,
                    collected@ == pre + fo.take(j as int),
                decreases fo.len() - j,
            {
                proof {
                    assert(fo.take(j as int + 1) =~= fo.take(j as int).push(fo[j as int]));
                }
                collected.push(found[j]);
                j = j + 1;
            }
            proof {
                assert(fo.take(fo.len() as int) =~= fo);
                assert(fo =~= spec_wrap_times(
                    spec_shape_times(self.objects@[i as int], *ray),
                    i as int,
                ));
                assert(collected@ == spec_collect(self.objects@, *ray, (i + 1) as nat));
                assert forall|k: int|
                    0 <= k < collected@.len() implies (#[trigger] collected@[k]).shape
                        < self.objects@.len() && in_range(collected@[k].time as int) by {
                    if k < pre.len() {
                        assert(collected@[k] == pre[k]);
                    } else {
                        assert(collected@[k] == fo[k - pre.len()]);
                    }
                }
            }
            i = i + 1;
        }
        let out = Intersections::new(collected);
        proof {
            assert forall|k: int|
                0 <= k < out.items@.len() implies (#[trigger] out.items@[k]).shape
                    < self.objects@.len() && in_range(out.items@[k].time as int) by {
                assert(out.items@.contains(out.items@[k]));
                assert(collected@.contains(out.items@[k]));
                let j = choose|j: int|
                    0 <= j < collected@.len() && collected@[j] == out.items@[k];
            }
        }
        out
    }

    /// Whether the given point lies in shadow.
    pub fn is_shadowed(&self, point: Point) -> (r: bool)
        requires
            self.wf(),
            point.wf(),
        ensures
            r == spec_is_shadowed(*self, point),
    {
        if !self.shadows_enabled {
            return false;
        }
        let point_to_light = self.light_source.position().minus_point(point);
        let distance = point_to_light.magnitude();
        let direction = point_to_light.normalize();
        let ray = Ray::new(point, direction);
        let intersections = self.intersected_by(&ray);
        let hit = intersections.hit();
        match hit {
            Option::Some(h) => h.time() < distance,
            Option::None => false,
        }
    }

    /// The color produced by firing a ray at this world, under the default
    /// bounce budget of five.
    pub fn color_at(&self, ray: &Ray) -> (r: Color)
        requires
            self.wf(),
            ray.wf(),
        ensures
            r == spec_color_at(*self, *ray, 5),
            r.wf(),
    {
        self.color_at_internal(ray, 5)
    }

    /// The color produced by a ray, with `recursion_remaining` bounces left.
    fn color_at_internal(&self, ray: &Ray, recursion_remaining: u32) -> (r: Color)
        requires
            self.wf(),
            ray.wf(),
        ensures
            r == spec_color_at(*self, *ray, recursion_remaining as nat),
            r.wf(),
        decreases recursion_remaining, 3int,
    {
        let intersections = self.intersected_by(ray);
        let hit = intersections.hit();
        match hit {
            Option::Some(h) => {
                proof {
                    lemma_hit_properties(intersections.items@);
                    lemma_walk_bounds(
                        intersections.items@,
                        h,
                        self.objects@,
                        Seq::empty(),
                    );
                }
                let pre = h.pre_computations(ray, &intersections, &self.objects);
                self.shade_hit(pre, recursion_remaining)
            },
            Option::None => Color::black(),
        }
    }

    /// The color of a precomputed hit.
    pub fn shade_hit(&self, pre: PreComputedIntersection, recursion_remaining: u32) -> (r: Color)
        requires
            self.wf(),
            pre.wf(),
            (pre.shape as int) < self.objects@.len(),
            SCALE <= pre.n1 as int <= LIM,
            SCALE <= pre.n2 as int <= LIM,
        ensures
            r == spec_shade_hit(*self, pre, recursion_remaining as nat),
            r.wf(),
        decreases recursion_remaining, 2int,
    {
        let in_shadow = self.is_shadowed(pre.over_point);
        let surface_color = self.objects[pre.shape].lighting(
            &self.light_source,
            pre.over_point,
            pre.eye_vector,
            pre.normal_vector,
            in_shadow,
        );
        let reflected_color = self.reflect_color(pre, recursion_remaining);
        let refracted_color = self.refracted_color(pre, recursion_remaining);
        let m = self.objects[pre.shape].material();
        if m.reflective() > 0 && m.transparency() > 0 {
            let reflectance = pre.schlick();
            surface_color.plus(reflected_color.scale(reflectance)).plus(
                refracted_color.scale(fsub(SCALE, reflectance)),
            )
        } else {
            surface_color.plus(reflected_color).plus(refracted_color)
        }
    }

    /// The reflected contribution of a hit.
    pub fn reflect_color(&self, pre: PreComputedIntersection, recursion_remaining: u32) -> (r: Color)
        requires
            self.wf(),
            pre.wf(),
            (pre.shape as int) < self.objects@.len(),
        ensures
            r == spec_reflect_color(*self, pre, recursion_remaining as nat),
            r.wf(),
        decreases recursion_remaining, 1int,
    {
        if recursion_remaining == 0 {
            return Color::black();
        }
        let reflective = self.objects[pre.shape].material().reflective();
        if !(reflective > 0) {
            return Color::black();
        }
        let color = self.color_at_internal(&pre.reflect_ray(), recursion_remaining - 1);
        color.scale(reflective)
    }

    /// The refracted contribution of a hit.
    pub fn refracted_color(&self, pre: PreComputedIntersection, recursion_remaining: u32) -> (r:
        Color)
        requires
            self.wf(),
            pre.wf(),
            (pre.shape as int) < self.objects@.len(),
            SCALE <= pre.n1 as int <= LIM,
            SCALE <= pre.n2 as int <= LIM,
        ensures
            r == spec_refracted_color(*self, pre, recursion_remaining as nat),
            r.wf(),
        decreases recursion_remaining, 1int,
    {
        if recursion_remaining == 0 {
            return Color::black();
        }
        let transparency = self.objects[pre.shape].material().transparency();
        if transparency == 0 {
            return Color::black();
        }
        let n_ratio = fdiv(pre.n1, pre.n2);
        let cos_i = pre.eye_vector.dot(pre.normal_vector);
        let sin2_t = fmul(fmul(n_ratio, n_ratio), fsub(SCALE, fmul(cos_i, cos_i)));
        if sin2_t > SCALE {
            return Color::black();
        }
        let cos_t = fsqrt(fsub(SCALE, sin2_t));
        let direction = pre.normal_vector.scale(fsub(fmul(n_ratio, cos_i), cos_t)).minus(
            pre.eye_vector.scale(n_ratio),
        );
        let refracted_ray = Ray::new(pre.under_point, direction);
        let color = self.color_at_internal(&refracted_ray, recursion_remaining - 1);
        color.scale(transparency)
    }
}

} // verus!
