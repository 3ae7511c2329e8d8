//! Laws of the tracer, stated across modules and proved once:
//! budget-independence of pure-reflection worlds, the monotonicity of
//! shadowing, and the transparency of the identity transform.
//!
//! The law that a ray's travel equals its scaled direction lives beside
//! `Ray` itself, and the unit-interval bound on the Schlick reflectance is
//! part of `schlick`'s own contract.

use crate::fixed::{clip, in_range, sat_mul, SCALE};
use crate::geometry::matrix::{
    gval, spec_cell_k, spec_cof, spec_det, spec_mul_point, spec_mul_vector, Matrix,
};
use crate::geometry::transformations::translation_vals;
use crate::geometry::point::Point;
use crate::geometry::vector::{spec_normalize, Vector};
use crate::tracing::intersection::{
    lemma_hit_properties, lemma_sort_contains, lemma_sort_sorted, spec_hit, Intersection,
};
use crate::tracing::ray::{spec_transform_ray, Ray};
use crate::tracing::shapes::shape::{
    identity_transform, spec_primitive_normal, spec_primitive_times, spec_shape_normal,
    spec_shape_times, Shape,
};
use crate::tracing::world::{
    spec_collect, spec_color_at, spec_intersected_by, spec_is_shadowed, spec_refracted_color,
    spec_reflect_color, spec_shade_hit, spec_wrap_times, World,
};
use vstd::prelude::*;

verus! {

/// A matrix that carries one on the diagonal and zero elsewhere.
pub open spec fn is_identity_vals(m: Matrix) -> bool {
    forall|i: int, j: int|
        0 <= i < 4 && 0 <= j < 4 ==> m.val(i, j) == if i == j {
            SCALE as int
        } else {
            0
        }
}

/// Multiplying a storable scalar by one is exact.
pub proof fn lemma_sat_mul_one(x: int)
    requires
        in_range(x),
    ensures
        sat_mul(SCALE as int, x) == x,
        sat_mul(x, SCALE as int) == x,
{
    vstd::arithmetic::div_mod::lemma_div_multiples_vanish(
        crate::fixed::absi(x),
        SCALE as int,
    );
    assert(SCALE as int * crate::fixed::absi(x) == crate::fixed::absi(SCALE as int * x))
        by (nonlinear_arith);
    assert(SCALE as int * crate::fixed::absi(x) == crate::fixed::absi(x * SCALE as int))
        by (nonlinear_arith);
    assert(crate::fixed::absi(SCALE as int * x) / (SCALE as int) == crate::fixed::absi(x));
    assert(crate::fixed::absi(x * SCALE as int) / (SCALE as int) == crate::fixed::absi(x));
}

/// Multiplying anything by zero gives zero.
pub proof fn lemma_sat_mul_zero(x: int)
    ensures
        sat_mul(0, x) == 0,
        sat_mul(x, 0) == 0,
{
    assert(0 * x == 0) by (nonlinear_arith);
    assert(x * 0 == 0) by (nonlinear_arith);
}

/// An identity matrix maps every point to itself.
pub proof fn lemma_mul_point_identity(m: Matrix, p: Point)
    requires
        is_identity_vals(m),
        m.is4x4(),
        p.wf(),
    ensures
        spec_mul_point(m, p) == p,
{
    lemma_sat_mul_one(p.x as int);
    lemma_sat_mul_one(p.y as int);
    lemma_sat_mul_one(p.z as int);
    lemma_sat_mul_zero(p.x as int);
    lemma_sat_mul_zero(p.y as int);
    lemma_sat_mul_zero(p.z as int);
    lemma_sat_mul_zero(SCALE as int);
    assert forall|i: int, j: int| 0 <= i < 4 && 0 <= j < 4 implies gval(4, m.vals(), i, j) == (
    if i == j {
        SCALE as int
    } else {
        0
    }) by {
        assert(m.val(i, j) == gval(4, m.vals(), i, j));
    }
}

/// An identity matrix maps every vector to itself.
pub proof fn lemma_mul_vector_identity(m: Matrix, v: Vector)
    requires
        is_identity_vals(m),
        m.is4x4(),
        v.wf(),
    ensures
        spec_mul_vector(m, v) == v,
{
    lemma_sat_mul_one(v.x as int);
    lemma_sat_mul_one(v.y as int);
    lemma_sat_mul_one(v.z as int);
    lemma_sat_mul_zero(v.x as int);
    lemma_sat_mul_zero(v.y as int);
    lemma_sat_mul_zero(v.z as int);
    lemma_sat_mul_zero(0);
    assert forall|i: int, j: int| 0 <= i < 4 && 0 <= j < 4 implies gval(4, m.vals(), i, j) == (
    if i == j {
        SCALE as int
    } else {
        0
    }) by {
        assert(m.val(i, j) == gval(4, m.vals(), i, j));
    }
}

/// Applying the identity transform to a shape preserves every intersection
/// time: the shape answers exactly as its bare primitive does.
pub proof fn lemma_identity_preserves_times(s: Shape, r: Ray)
    requires
        s.wf(),
        r.wf(),
        identity_transform(s),
    ensures
        spec_shape_times(s, r) == spec_primitive_times(s.geometry, r),
{
    lemma_mul_point_identity(s.transform_inverse, r.origin);
    lemma_mul_vector_identity(s.transform_inverse, r.direction);
    assert(spec_transform_ray(r, s.transform_inverse) == r);
}

/// Applying the identity transform to a shape preserves every normal: the
/// shape's world normal is the primitive's local normal, normalized.
pub proof fn lemma_identity_preserves_normals(s: Shape, p: Point)
    requires
        s.wf(),
        p.wf(),
        identity_transform(s),
    ensures
        spec_shape_normal(s, p) == spec_normalize(spec_primitive_normal(s.geometry, p)),
{
    lemma_mul_point_identity(s.transform_inverse, p);
    let local_normal = spec_primitive_normal(s.geometry, p);
    lemma_primitive_normal_wf(s, p);
    lemma_mul_vector_identity(s.transform_inverse_transpose, local_normal);
}

/// A primitive's local normal holds storable components.
proof fn lemma_primitive_normal_wf(s: Shape, p: Point)
    requires
        s.wf(),
        p.wf(),
    ensures
        spec_primitive_normal(s.geometry, p).wf(),
{
}

/// A world where every material is a pure surface: nothing reflects,
/// nothing transmits.
pub open spec fn spec_pure_world(w: World) -> bool {
    forall|k: int|
        0 <= k < w.objects@.len() ==> (#[trigger] w.objects@[k]).material.spec_reflective() == 0
            && w.objects@[k].material.spec_transparency() == 0
}

/// Every record the world's intersection list holds points at one of the
/// world's shapes.
pub proof fn lemma_intersected_ids_ok(w: World, r: Ray)
    ensures
        crate::tracing::intersection::spec_ids_ok(
            spec_intersected_by(w, r),
            w.objects@.len() as int,
        ),
{
    let n = w.objects@.len() as int;
    lemma_collect_ids_ok(w.objects@, r, w.objects@.len());
    let collected = spec_collect(w.objects@, r, w.objects@.len());
    let sorted = spec_intersected_by(w, r);
    assert forall|k: int| 0 <= k < sorted.len() implies (#[trigger] sorted[k]).shape < n by {
        assert(sorted.contains(sorted[k]));
        lemma_sort_contains(collected, sorted[k]);
        let j = choose|j: int| 0 <= j < collected.len() && collected[j] == sorted[k];
    }
}

/// Every collected record points at the shape that produced it.
proof fn lemma_collect_ids_ok(objects: Seq<Shape>, r: Ray, k: nat)
    requires
        k <= objects.len(),
    ensures
        crate::tracing::intersection::spec_ids_ok(
            spec_collect(objects, r, k),
            objects.len() as int,
        ),
    decreases k,
{
    if k > 0 {
        lemma_collect_ids_ok(objects, r, (k - 1) as nat);
        let prev = spec_collect(objects, r, (k - 1) as nat);
        let wrapped = spec_wrap_times(spec_shape_times(objects[k - 1], r), k - 1);
        let all = spec_collect(objects, r, k);
        assert forall|j: int|
            0 <= j < all.len() implies (#[trigger] all[j]).shape < objects.len() by {
            if j < prev.len() {
                assert(all[j] == prev[j]);
            } else {
                assert(all[j] == wrapped[j - prev.len()]);
            }
        }
    }
}

/// In a pure-reflection world the color of a ray does not depend on the
/// bounce budget: no bounce is ever taken.
pub proof fn lemma_color_independent_of_budget(w: World, r: Ray, b1: nat, b2: nat)
    requires
        spec_pure_world(w),
    ensures
        spec_color_at(w, r, b1) == spec_color_at(w, r, b2),
{
    let xs = spec_intersected_by(w, r);
    lemma_intersected_ids_ok(w, r);
    match spec_hit(xs) {
        Option::Some(h) => {
            lemma_sort_sorted(spec_collect(w.objects@, r, w.objects@.len()));
            lemma_hit_properties(xs);
            assert(xs.contains(h));
            let k = choose|k: int| 0 <= k < xs.len() && xs[k] == h;
            assert(h.shape < w.objects@.len());
            let pre = crate::tracing::intersection::spec_precompute(h, r, xs, w.objects@);
            assert(pre.shape < w.objects@.len());
            assert(w.objects@[pre.shape as int].material.spec_reflective() == 0);
            assert(spec_reflect_color(w, pre, b1) == spec_reflect_color(w, pre, b2));
            assert(spec_refracted_color(w, pre, b1) == spec_refracted_color(w, pre, b2));
            assert(spec_shade_hit(w, pre, b1) == spec_shade_hit(w, pre, b2));
        },
        Option::None => {},
    }
}

/// A shape of the world blocks the light from a point when the ray from
/// the point toward the light meets it at a time between zero and the
/// light's distance.
pub open spec fn spec_blocks(w: World, j: int, point: Point, t: int) -> bool {
    let point_to_light = crate::geometry::point::spec_sub_pp(w.light_source.position, point);
    let distance = crate::geometry::vector::spec_magnitude(point_to_light);
    let direction = spec_normalize(point_to_light);
    let ray = Ray { origin: point, direction };
    &&& 0 <= j < w.objects@.len()
    &&& spec_shape_times(w.objects@[j], ray).contains(t)
    &&& 0 <= t < distance
    &&& in_range(t)
}

/// Whatever else stands in the world, a point occluded by one of its
/// shapes is in shadow, as long as shadow tests are enabled.
pub proof fn lemma_blocking_shape_shadows(w: World, j: int, point: Point, t: int)
    requires
        w.shadows_enabled,
        spec_blocks(w, j, point, t),
    ensures
        spec_is_shadowed(w, point),
{
    let point_to_light = crate::geometry::point::spec_sub_pp(w.light_source.position, point);
    let distance = crate::geometry::vector::spec_magnitude(point_to_light);
    let direction = spec_normalize(point_to_light);
    let ray = Ray { origin: point, direction };
    let it = Intersection { time: t as i128, shape: j as usize };
    let times = spec_shape_times(w.objects@[j], ray);
    let idx = choose|idx: int| 0 <= idx < times.len() && times[idx] == t;
    assert(spec_wrap_times(times, j)[idx] == it);
    assert(spec_wrap_times(times, j).contains(it));
    lemma_collect_has(w.objects@, ray, w.objects@.len(), j, it);
    let collected = spec_collect(w.objects@, ray, w.objects@.len());
    lemma_sort_contains(collected, it);
    let sorted = spec_intersected_by(w, ray);
    assert(sorted.contains(it));
    lemma_sort_sorted(collected);
    lemma_hit_properties(sorted);
    let k = choose|k: int| 0 <= k < sorted.len() && sorted[k] == it;
    match spec_hit(sorted) {
        Option::Some(h) => {
            assert(sorted[k].time >= 0);
            assert(h.time <= sorted[k].time);
        },
        Option::None => {
            assert(sorted[k].time < 0);
        },
    }
}

/// What one shape contributes is among what the world collects.
proof fn lemma_collect_has(objects: Seq<Shape>, r: Ray, k: nat, j: int, it: Intersection)
    requires
        0 <= j < k <= objects.len(),
        spec_wrap_times(spec_shape_times(objects[j], r), j).contains(it),
    ensures
        spec_collect(objects, r, k).contains(it),
    decreases k,
{
    let wrapped = spec_wrap_times(spec_shape_times(objects[j], r), j);
    if j == k - 1 {
        let idx = choose|idx: int| 0 <= idx < wrapped.len() && wrapped[idx] == it;
        let prev = spec_collect(objects, r, (k - 1) as nat);
        assert(spec_collect(objects, r, k)[prev.len() + idx] == it);
    } else {
        lemma_collect_has(objects, r, (k - 1) as nat, j, it);
        let prev = spec_collect(objects, r, (k - 1) as nat);
        let idx = choose|idx: int| 0 <= idx < prev.len() && prev[idx] == it;
        assert(spec_collect(objects, r, k)[idx] == it);
    }
}

/// Carrying a ray by a translation shifts its origin and keeps its
/// direction; doing so by a translation and then its opposite reproduces
/// the ray, whenever no coordinate saturates on the way.
pub proof fn lemma_ray_translation_round_trip(r: Ray, x: int, y: int, z: int, a: Matrix, b: Matrix)
    requires
        r.wf(),
        in_range(x) && in_range(y) && in_range(z),
        in_range(r.origin.x + x) && in_range(r.origin.y + y) && in_range(r.origin.z + z),
        a.vals() == crate::geometry::transformations::translation_vals(x, y, z),
        b.vals() == crate::geometry::transformations::translation_vals(-x, -y, -z),
        a.is4x4() && b.is4x4(),
    ensures
        spec_transform_ray(spec_transform_ray(r, a), b) == r,
{
    lemma_translate_point(a, x, y, z, r.origin);
    lemma_translate_vector(a, x, y, z, r.direction);
    let r2 = spec_transform_ray(r, a);
    assert(r2.origin == Point {
        x: (r.origin.x + x) as i128,
        y: (r.origin.y + y) as i128,
        z: (r.origin.z + z) as i128,
    });
    assert(r2.direction == r.direction);
    lemma_translate_point(b, -x, -y, -z, r2.origin);
    lemma_translate_vector(b, -x, -y, -z, r2.direction);
}

/// A translation matrix adds its offsets to a point's coordinates.
pub proof fn lemma_translate_point(m: Matrix, x: int, y: int, z: int, p: Point)
    requires
        p.wf(),
        in_range(x) && in_range(y) && in_range(z),
        in_range(p.x + x) && in_range(p.y + y) && in_range(p.z + z),
        m.vals() == crate::geometry::transformations::translation_vals(x, y, z),
        m.is4x4(),
    ensures
        spec_mul_point(m, p) == (Point {
            x: (p.x + x) as i128,
            y: (p.y + y) as i128,
            z: (p.z + z) as i128,
        }),
{
    lemma_sat_mul_one(p.x as int);
    lemma_sat_mul_one(p.y as int);
    lemma_sat_mul_one(p.z as int);
    lemma_sat_mul_one(clip(x));
    lemma_sat_mul_one(clip(y));
    lemma_sat_mul_one(clip(z));
    lemma_sat_mul_zero(p.x as int);
    lemma_sat_mul_zero(p.y as int);
    lemma_sat_mul_zero(p.z as int);
    lemma_sat_mul_zero(SCALE as int);
    assert(m.val(0, 0) == SCALE as int && m.val(0, 1) == 0 && m.val(0, 2) == 0 && m.val(0, 3)
        == clip(x));
    assert(m.val(1, 0) == 0 && m.val(1, 1) == SCALE as int && m.val(1, 2) == 0 && m.val(1, 3)
        == clip(y));
    assert(m.val(2, 0) == 0 && m.val(2, 1) == 0 && m.val(2, 2) == SCALE as int && m.val(2, 3)
        == clip(z));
}

/// A translation matrix leaves every vector unchanged.
pub proof fn lemma_translate_vector(m: Matrix, x: int, y: int, z: int, v: Vector)
    requires
        v.wf(),
        m.vals() == crate::geometry::transformations::translation_vals(x, y, z),
        m.is4x4(),
    ensures
        spec_mul_vector(m, v) == v,
{
    lemma_sat_mul_one(v.x as int);
    lemma_sat_mul_one(v.y as int);
    lemma_sat_mul_one(v.z as int);
    lemma_sat_mul_zero(v.x as int);
    lemma_sat_mul_zero(v.y as int);
    lemma_sat_mul_zero(v.z as int);
    lemma_sat_mul_zero(clip(x));
    lemma_sat_mul_zero(clip(y));
    lemma_sat_mul_zero(clip(z));
    assert(m.val(0, 0) == SCALE as int && m.val(0, 1) == 0 && m.val(0, 2) == 0 && m.val(0, 3)
        == clip(x));
    assert(m.val(1, 0) == 0 && m.val(1, 1) == SCALE as int && m.val(1, 2) == 0 && m.val(1, 3)
        == clip(y));
    assert(m.val(2, 0) == 0 && m.val(2, 1) == 0 && m.val(2, 2) == SCALE as int && m.val(2, 3)
        == clip(z));
}

} // verus!

verus! {

/// Dividing a storable scalar by one is exact.
pub proof fn lemma_sat_div_one(c: int)
    requires
        in_range(c),
    ensures
        crate::fixed::sat_div(c, SCALE as int) == c,
{
    vstd::arithmetic::div_mod::lemma_div_multiples_vanish(
        crate::fixed::absi(c),
        SCALE as int,
    );
    assert(SCALE as int * crate::fixed::absi(c) == crate::fixed::absi(c * SCALE as int))
        by (nonlinear_arith);
    assert(crate::fixed::absi(c * SCALE as int) / (SCALE as int) == crate::fixed::absi(c));
}

/// The determinant of a translation matrix is one.
pub proof fn lemma_translation_det(x: int, y: int, z: int)
    requires
        in_range(x) && in_range(y) && in_range(z),
    ensures
        spec_det(4, 4, translation_vals(x, y, z)) == SCALE,
{
    reveal_with_fuel(crate::geometry::matrix::spec_det, 8);
    reveal_with_fuel(crate::geometry::matrix::spec_det_row, 8);
    reveal_with_fuel(crate::geometry::matrix::spec_cof, 8);
    lemma_sat_mul_one(SCALE as int);
    lemma_sat_mul_one(clip(x));
    lemma_sat_mul_one(clip(y));
    lemma_sat_mul_one(clip(z));
    lemma_sat_mul_zero(SCALE as int);
    lemma_sat_mul_zero(clip(x));
    lemma_sat_mul_zero(clip(y));
    lemma_sat_mul_zero(clip(z));
    let tv = translation_vals(x, y, z);
    let s3 = crate::geometry::matrix::sub_grid(4, 4, tv, 0, 0);
    assert(s3.len() == 9);
    assert(s3[0] == SCALE as int && s3[1] == 0 && s3[2] == clip(y));
    assert(s3[3] == 0 && s3[4] == SCALE as int && s3[5] == clip(z));
    assert(s3[6] == 0 && s3[7] == 0 && s3[8] == SCALE as int);
    let s2 = crate::geometry::matrix::sub_grid(3, 3, s3, 0, 0);
    assert(s2.len() == 4);
    assert(s2[0] == SCALE as int && s2[1] == clip(z) && s2[2] == 0 && s2[3] == SCALE as int);
    assert(spec_det(2, 2, s2) == SCALE);
    let s2b = crate::geometry::matrix::sub_grid(3, 3, s3, 0, 1);
    assert(s2b[0] == 0 && s2b[1] == clip(z) && s2b[2] == 0 && s2b[3] == SCALE as int);
    assert(spec_det(2, 2, s2b) == 0);
    let s2c = crate::geometry::matrix::sub_grid(3, 3, s3, 0, 2);
    assert(s2c[0] == 0 && s2c[1] == SCALE as int && s2c[2] == 0 && s2c[3] == 0);
    assert(spec_det(2, 2, s2c) == 0);
    assert(spec_det(3, 3, s3) == SCALE);
    let t3 = crate::geometry::matrix::sub_grid(4, 4, tv, 0, 3);
    assert(t3.len() == 9);
    assert(t3[0] == 0 && t3[1] == SCALE as int && t3[2] == 0);
    assert(t3[3] == 0 && t3[4] == 0 && t3[5] == SCALE as int);
    assert(t3[6] == 0 && t3[7] == 0 && t3[8] == 0);
    let t2 = crate::geometry::matrix::sub_grid(3, 3, t3, 0, 0);
    assert(t2[0] == 0 && t2[1] == SCALE as int && t2[2] == 0 && t2[3] == 0);
    assert(spec_det(2, 2, t2) == 0);
    let t2b = crate::geometry::matrix::sub_grid(3, 3, t3, 0, 1);
    assert(t2b[0] == 0 && t2b[1] == SCALE as int && t2b[2] == 0 && t2b[3] == 0);
    assert(spec_det(2, 2, t2b) == 0);
    let t2c = crate::geometry::matrix::sub_grid(3, 3, t3, 0, 2);
    assert(t2c[0] == 0 && t2c[1] == 0 && t2c[2] == 0 && t2c[3] == 0);
    assert(spec_det(2, 2, t2c) == 0);
    assert(spec_det(3, 3, t3) == 0);
    assert(spec_det(4, 4, tv) == sat_mul(SCALE as int, spec_cof(4, 4, tv, 0, 0)) + 0
        + 0 + sat_mul(clip(x), spec_cof(4, 4, tv, 0, 3))) by {
        lemma_sat_mul_zero(spec_cof(4, 4, tv, 0, 1));
        lemma_sat_mul_zero(spec_cof(4, 4, tv, 0, 2));
    }
}

/// The determinant of a three-by-three grid, written out: cofactor
/// expansion along row zero.
proof fn lemma_det3_formula(
    g: Seq<int>,
    e0: int, e1: int, e2: int,
    e3: int, e4: int, e5: int,
    e6: int, e7: int, e8: int,
)
    requires
        g.len() == 9,
        g[0] == e0 && g[1] == e1 && g[2] == e2,
        g[3] == e3 && g[4] == e4 && g[5] == e5,
        g[6] == e6 && g[7] == e7 && g[8] == e8,
    ensures
        spec_det(3, 3, g) == crate::fixed::sat_add(
            crate::fixed::sat_add(
                crate::fixed::sat_add(
                    0,
                    sat_mul(e0, crate::fixed::sat_sub(sat_mul(e4, e8), sat_mul(e5, e7))),
                ),
                sat_mul(
                    e1,
                    crate::fixed::sat_neg(
                        crate::fixed::sat_sub(sat_mul(e3, e8), sat_mul(e5, e6)),
                    ),
                ),
            ),
            sat_mul(e2, crate::fixed::sat_sub(sat_mul(e3, e7), sat_mul(e4, e6))),
        ),
{
    reveal_with_fuel(crate::geometry::matrix::spec_det, 3);
    reveal_with_fuel(crate::geometry::matrix::spec_det_row, 5);
    reveal_with_fuel(crate::geometry::matrix::spec_cof, 3);
    let s00 = crate::geometry::matrix::sub_grid(3, 3, g, 0, 0);
    assert(s00.len() == 4);
    assert(s00[0] == e4 && s00[1] == e5 && s00[2] == e7 && s00[3] == e8);
    let s01 = crate::geometry::matrix::sub_grid(3, 3, g, 0, 1);
    assert(s01[0] == e3 && s01[1] == e5 && s01[2] == e6 && s01[3] == e8);
    let s02 = crate::geometry::matrix::sub_grid(3, 3, g, 0, 2);
    assert(s02[0] == e3 && s02[1] == e4 && s02[2] == e6 && s02[3] == e7);
    assert(spec_det(2, 2, s00) == crate::fixed::sat_sub(sat_mul(e4, e8), sat_mul(e5, e7)));
    assert(spec_det(2, 2, s01) == crate::fixed::sat_sub(sat_mul(e3, e8), sat_mul(e5, e6)));
    assert(spec_det(2, 2, s02) == crate::fixed::sat_sub(sat_mul(e3, e7), sat_mul(e4, e6)));
    assert(spec_cof(3, 3, g, 0, 0) == spec_det(2, 2, s00));
    assert(spec_cof(3, 3, g, 0, 1) == crate::fixed::sat_neg(spec_det(2, 2, s01)));
    assert(spec_cof(3, 3, g, 0, 2) == spec_det(2, 2, s02));
    assert(crate::geometry::matrix::spec_det_row(3, 3, g, 0) == 0);
    assert(crate::geometry::matrix::spec_det_row(3, 3, g, 1) == crate::fixed::sat_add(
        0,
        sat_mul(gval(3, g, 0, 0), spec_cof(3, 3, g, 0, 0)),
    ));
    assert(crate::geometry::matrix::spec_det_row(3, 3, g, 2) == crate::fixed::sat_add(
        crate::geometry::matrix::spec_det_row(3, 3, g, 1),
        sat_mul(gval(3, g, 0, 1), spec_cof(3, 3, g, 0, 1)),
    ));
    assert(crate::geometry::matrix::spec_det_row(3, 3, g, 3) == crate::fixed::sat_add(
        crate::geometry::matrix::spec_det_row(3, 3, g, 2),
        sat_mul(gval(3, g, 0, 2), spec_cof(3, 3, g, 0, 2)),
    ));
    assert(gval(3, g, 0, 0) == e0 && gval(3, g, 0, 1) == e1 && gval(3, g, 0, 2) == e2);
    assert(spec_det(3, 3, g) == crate::geometry::matrix::spec_det_row(3, 3, g, 3));
}

/// Every cofactor of a translation matrix, evaluated: the adjugate is the
/// opposite translation, scaled by the determinant.
proof fn lemma_translation_cofactors(x: int, y: int, z: int)
    requires
        in_range(x) && in_range(y) && in_range(z),
    ensures
        forall|r: int, c: int|
            0 <= r < 4 && 0 <= c < 4 ==> spec_cof(4, 4, translation_vals(x, y, z), r, c)
                == gval(4, translation_vals(-x, -y, -z), c, r),
{
    let tv = translation_vals(x, y, z);
    reveal_with_fuel(crate::geometry::matrix::spec_cof, 3);
    lemma_sat_mul_one(SCALE as int);
    lemma_sat_mul_one(clip(x));
    lemma_sat_mul_zero(clip(x));
    lemma_sat_mul_one(clip(y));
    lemma_sat_mul_zero(clip(y));
    lemma_sat_mul_one(clip(z));
    lemma_sat_mul_zero(clip(z));
    lemma_sat_mul_one(clip(-x));
    lemma_sat_mul_zero(clip(-x));
    lemma_sat_mul_one(clip(-y));
    lemma_sat_mul_zero(clip(-y));
    lemma_sat_mul_one(clip(-z));
    lemma_sat_mul_zero(clip(-z));
    lemma_sat_mul_zero(SCALE as int);
    lemma_sat_mul_zero(0);
    let g00 = crate::geometry::matrix::sub_grid(4, 4, tv, 0, 0);
    assert(g00.len() == 9);
    assert(g00[0] == (SCALE as int));
    assert(g00[1] == 0);
    assert(g00[2] == clip(y));
    assert(g00[3] == 0);
    assert(g00[4] == (SCALE as int));
    assert(g00[5] == clip(z));
    assert(g00[6] == 0);
    assert(g00[7] == 0);
    assert(g00[8] == (SCALE as int));
    lemma_det3_formula(g00, (SCALE as int), 0, clip(y), 0, (SCALE as int), clip(z), 0, 0, (SCALE as int));
    assert(spec_cof(4, 4, tv, 0, 0) == (SCALE as int));
    let g01 = crate::geometry::matrix::sub_grid(4, 4, tv, 0, 1);
    assert(g01.len() == 9);
    assert(g01[0] == 0);
    assert(g01[1] == 0);
    assert(g01[2] == clip(y));
    assert(g01[3] == 0);
    assert(g01[4] == (SCALE as int));
    assert(g01[5] == clip(z));
    assert(g01[6] == 0);
    assert(g01[7] == 0);
    assert(g01[8] == (SCALE as int));
    lemma_det3_formula(g01, 0, 0, clip(y), 0, (SCALE as int), clip(z), 0, 0, (SCALE as int));
    assert(spec_cof(4, 4, tv, 0, 1) == 0);
    let g02 = crate::geometry::matrix::sub_grid(4, 4, tv, 0, 2);
    assert(g02.len() == 9);
    assert(g02[0] == 0);
    assert(g02[1] == (SCALE as int));
    assert(g02[2] == clip(y));
    assert(g02[3] == 0);
    assert(g02[4] == 0);
    assert(g02[5] == clip(z));
    assert(g02[6] == 0);
    assert(g02[7] == 0);
    assert(g02[8] == (SCALE as int));
    lemma_det3_formula(g02, 0, (SCALE as int), clip(y), 0, 0, clip(z), 0, 0, (SCALE as int));
    assert(spec_cof(4, 4, tv, 0, 2) == 0);
    let g03 = crate::geometry::matrix::sub_grid(4, 4, tv, 0, 3);
    assert(g03.len() == 9);
    assert(g03[0] == 0);
    assert(g03[1] == (SCALE as int));
    assert(g03[2] == 0);
    assert(g03[3] == 0);
    assert(g03[4] == 0);
    assert(g03[5] == (SCALE as int));
    assert(g03[6] == 0);
    assert(g03[7] == 0);
    assert(g03[8] == 0);
    lemma_det3_formula(g03, 0, (SCALE as int), 0, 0, 0, (SCALE as int), 0, 0, 0);
    assert(spec_cof(4, 4, tv, 0, 3) == 0);
    let g10 = crate::geometry::matrix::sub_grid(4, 4, tv, 1, 0);
    assert(g10.len() == 9);
    assert(g10[0] == 0);
    assert(g10[1] == 0);
    assert(g10[2] == clip(x));
    assert(g10[3] == 0);
    assert(g10[4] == (SCALE as int));
    assert(g10[5] == clip(z));
    assert(g10[6] == 0);
    assert(g10[7] == 0);
    assert(g10[8] == (SCALE as int));
    lemma_det3_formula(g10, 0, 0, clip(x), 0, (SCALE as int), clip(z), 0, 0, (SCALE as int));
    assert(spec_cof(4, 4, tv, 1, 0) == 0);
    let g11 = crate::geometry::matrix::sub_grid(4, 4, tv, 1, 1);
    assert(g11.len() == 9);
    assert(g11[0] == (SCALE as int));
    assert(g11[1] == 0);
    assert(g11[2] == clip(x));
    assert(g11[3] == 0);
    assert(g11[4] == (SCALE as int));
    assert(g11[5] == clip(z));
    assert(g11[6] == 0);
    assert(g11[7] == 0);
    assert(g11[8] == (SCALE as int));
    lemma_det3_formula(g11, (SCALE as int), 0, clip(x), 0, (SCALE as int), clip(z), 0, 0, (SCALE as int));
    assert(spec_cof(4, 4, tv, 1, 1) == (SCALE as int));
    let g12 = crate::geometry::matrix::sub_grid(4, 4, tv, 1, 2);
    assert(g12.len() == 9);
    assert(g12[0] == (SCALE as int));
    assert(g12[1] == 0);
    assert(g12[2] == clip(x));
    assert(g12[3] == 0);
    assert(g12[4] == 0);
    assert(g12[5] == clip(z));
    assert(g12[6] == 0);
    assert(g12[7] == 0);
    assert(g12[8] == (SCALE as int));
    lemma_det3_formula(g12, (SCALE as int), 0, clip(x), 0, 0, clip(z), 0, 0, (SCALE as int));
    assert(spec_cof(4, 4, tv, 1, 2) == 0);
    let g13 = crate::geometry::matrix::sub_grid(4, 4, tv, 1, 3);
    assert(g13.len() == 9);
    assert(g13[0] == (SCALE as int));
    assert(g13[1] == 0);
    assert(g13[2] == 0);
    assert(g13[3] == 0);
    assert(g13[4] == 0);
    assert(g13[5] == (SCALE as int));
    assert(g13[6] == 0);
    assert(g13[7] == 0);
    assert(g13[8] == 0);
    lemma_det3_formula(g13, (SCALE as int), 0, 0, 0, 0, (SCALE as int), 0, 0, 0);
    assert(spec_cof(4, 4, tv, 1, 3) == 0);
    let g20 = crate::geometry::matrix::sub_grid(4, 4, tv, 2, 0);
    assert(g20.len() == 9);
    assert(g20[0] == 0);
    assert(g20[1] == 0);
    assert(g20[2] == clip(x));
    assert(g20[3] == (SCALE as int));
    assert(g20[4] == 0);
    assert(g20[5] == clip(y));
    assert(g20[6] == 0);
    assert(g20[7] == 0);
    assert(g20[8] == (SCALE as int));
    lemma_det3_formula(g20, 0, 0, clip(x), (SCALE as int), 0, clip(y), 0, 0, (SCALE as int));
    assert(spec_cof(4, 4, tv, 2, 0) == 0);
    let g21 = crate::geometry::matrix::sub_grid(4, 4, tv, 2, 1);
    assert(g21.len() == 9);
    assert(g21[0] == (SCALE as int));
    assert(g21[1] == 0);
    assert(g21[2] == clip(x));
    assert(g21[3] == 0);
    assert(g21[4] == 0);
    assert(g21[5] == clip(y));
    assert(g21[6] == 0);
    assert(g21[7] == 0);
    assert(g21[8] == (SCALE as int));
    lemma_det3_formula(g21, (SCALE as int), 0, clip(x), 0, 0, clip(y), 0, 0, (SCALE as int));
    assert(spec_cof(4, 4, tv, 2, 1) == 0);
    let g22 = crate::geometry::matrix::sub_grid(4, 4, tv, 2, 2);
    assert(g22.len() == 9);
    assert(g22[0] == (SCALE as int));
    assert(g22[1] == 0);
    assert(g22[2] == clip(x));
    assert(g22[3] == 0);
    assert(g22[4] == (SCALE as int));
    assert(g22[5] == clip(y));
    assert(g22[6] == 0);
    assert(g22[7] == 0);
    assert(g22[8] == (SCALE as int));
    lemma_det3_formula(g22, (SCALE as int), 0, clip(x), 0, (SCALE as int), clip(y), 0, 0, (SCALE as int));
    assert(spec_cof(4, 4, tv, 2, 2) == (SCALE as int));
    let g23 = crate::geometry::matrix::sub_grid(4, 4, tv, 2, 3);
    assert(g23.len() == 9);
    assert(g23[0] == (SCALE as int));
    assert(g23[1] == 0);
    assert(g23[2] == 0);
    assert(g23[3] == 0);
    assert(g23[4] == (SCALE as int));
    assert(g23[5] == 0);
    assert(g23[6] == 0);
    assert(g23[7] == 0);
    assert(g23[8] == 0);
    lemma_det3_formula(g23, (SCALE as int), 0, 0, 0, (SCALE as int), 0, 0, 0, 0);
    assert(spec_cof(4, 4, tv, 2, 3) == 0);
    let g30 = crate::geometry::matrix::sub_grid(4, 4, tv, 3, 0);
    assert(g30.len() == 9);
    assert(g30[0] == 0);
    assert(g30[1] == 0);
    assert(g30[2] == clip(x));
    assert(g30[3] == (SCALE as int));
    assert(g30[4] == 0);
    assert(g30[5] == clip(y));
    assert(g30[6] == 0);
    assert(g30[7] == (SCALE as int));
    assert(g30[8] == clip(z));
    lemma_det3_formula(g30, 0, 0, clip(x), (SCALE as int), 0, clip(y), 0, (SCALE as int), clip(z));
    assert(spec_cof(4, 4, tv, 3, 0) == clip(-x));
    let g31 = crate::geometry::matrix::sub_grid(4, 4, tv, 3, 1);
    assert(g31.len() == 9);
    assert(g31[0] == (SCALE as int));
    assert(g31[1] == 0);
    assert(g31[2] == clip(x));
    assert(g31[3] == 0);
    assert(g31[4] == 0);
    assert(g31[5] == clip(y));
    assert(g31[6] == 0);
    assert(g31[7] == (SCALE as int));
    assert(g31[8] == clip(z));
    lemma_det3_formula(g31, (SCALE as int), 0, clip(x), 0, 0, clip(y), 0, (SCALE as int), clip(z));
    assert(spec_cof(4, 4, tv, 3, 1) == clip(-y));
    let g32 = crate::geometry::matrix::sub_grid(4, 4, tv, 3, 2);
    assert(g32.len() == 9);
    assert(g32[0] == (SCALE as int));
    assert(g32[1] == 0);
    assert(g32[2] == clip(x));
    assert(g32[3] == 0);
    assert(g32[4] == (SCALE as int));
    assert(g32[5] == clip(y));
    assert(g32[6] == 0);
    assert(g32[7] == 0);
    assert(g32[8] == clip(z));
    lemma_det3_formula(g32, (SCALE as int), 0, clip(x), 0, (SCALE as int), clip(y), 0, 0, clip(z));
    assert(spec_cof(4, 4, tv, 3, 2) == clip(-z));
    let g33 = crate::geometry::matrix::sub_grid(4, 4, tv, 3, 3);
    assert(g33.len() == 9);
    assert(g33[0] == (SCALE as int));
    assert(g33[1] == 0);
    assert(g33[2] == 0);
    assert(g33[3] == 0);
    assert(g33[4] == (SCALE as int));
    assert(g33[5] == 0);
    assert(g33[6] == 0);
    assert(g33[7] == 0);
    assert(g33[8] == (SCALE as int));
    lemma_det3_formula(g33, (SCALE as int), 0, 0, 0, (SCALE as int), 0, 0, 0, (SCALE as int));
    assert(spec_cof(4, 4, tv, 3, 3) == (SCALE as int));
    assert forall|r: int, c: int| 0 <= r < 4 && 0 <= c < 4 implies spec_cof(4, 4, tv, r, c)
        == gval(4, translation_vals(-x, -y, -z), c, r) by {
    }
}

/// The inverse of a translation, as the tracer computes it from cofactors,
/// is exactly the opposite translation.
pub proof fn lemma_translation_inverse_vals(x: int, y: int, z: int)
    requires
        in_range(x) && in_range(y) && in_range(z),
    ensures
        forall|i: int, j: int|
            0 <= i < 4 && 0 <= j < 4 ==> crate::fixed::sat_div(
                spec_cof(4, 4, translation_vals(x, y, z), j, i),
                spec_det(4, 4, translation_vals(x, y, z)),
            ) == gval(4, translation_vals(-x, -y, -z), i, j),
{
    lemma_translation_det(x, y, z);
    lemma_translation_cofactors(x, y, z);
    lemma_sat_div_one(SCALE as int);
    lemma_sat_div_one(clip(-x));
    lemma_sat_div_one(clip(-y));
    lemma_sat_div_one(clip(-z));
    lemma_sat_div_one(0);
    assert forall|i: int, j: int| 0 <= i < 4 && 0 <= j < 4 implies crate::fixed::sat_div(
        spec_cof(4, 4, translation_vals(x, y, z), j, i),
        spec_det(4, 4, translation_vals(x, y, z)),
    ) == gval(4, translation_vals(-x, -y, -z), i, j) by {
        assert(spec_cof(4, 4, translation_vals(x, y, z), j, i) == gval(
            4,
            translation_vals(-x, -y, -z),
            i,
            j,
        ));
        assert(in_range(gval(4, translation_vals(-x, -y, -z), i, j)));
    }
}

/// A translation matrix times its opposite translation is the identity,
/// exactly: the product the tracer computes cancels without rounding.
pub proof fn lemma_translation_times_inverse(x: int, y: int, z: int, a: Matrix, b: Matrix)
    requires
        in_range(x) && in_range(y) && in_range(z),
        a.vals() == translation_vals(x, y, z),
        b.vals() == translation_vals(-x, -y, -z),
        a.is4x4() && b.is4x4(),
    ensures
        forall|i: int, j: int|
            0 <= i < 4 && 0 <= j < 4 ==> spec_cell_k(4, a.vals(), 4, b.vals(), i, j, 4) == (
            if i == j {
                SCALE as int
            } else {
                0
            }),
{
    reveal_with_fuel(crate::geometry::matrix::spec_cell_k, 6);
    lemma_sat_mul_one(SCALE as int);
    lemma_sat_mul_one(clip(x));
    lemma_sat_mul_one(clip(y));
    lemma_sat_mul_one(clip(z));
    lemma_sat_mul_one(clip(-x));
    lemma_sat_mul_one(clip(-y));
    lemma_sat_mul_one(clip(-z));
    lemma_sat_mul_zero(SCALE as int);
    lemma_sat_mul_zero(clip(x));
    lemma_sat_mul_zero(clip(y));
    lemma_sat_mul_zero(clip(z));
    lemma_sat_mul_zero(clip(-x));
    lemma_sat_mul_zero(clip(-y));
    lemma_sat_mul_zero(clip(-z));
    lemma_sat_mul_zero(0);
    assert(spec_cell_k(4, a.vals(), 4, b.vals(), 0, 0, 4) == (SCALE as int));
    assert(spec_cell_k(4, a.vals(), 4, b.vals(), 0, 1, 4) == 0);
    assert(spec_cell_k(4, a.vals(), 4, b.vals(), 0, 2, 4) == 0);
    assert(spec_cell_k(4, a.vals(), 4, b.vals(), 0, 3, 4) == 0);
    assert(spec_cell_k(4, a.vals(), 4, b.vals(), 1, 0, 4) == 0);
    assert(spec_cell_k(4, a.vals(), 4, b.vals(), 1, 1, 4) == (SCALE as int));
    assert(spec_cell_k(4, a.vals(), 4, b.vals(), 1, 2, 4) == 0);
    assert(spec_cell_k(4, a.vals(), 4, b.vals(), 1, 3, 4) == 0);
    assert(spec_cell_k(4, a.vals(), 4, b.vals(), 2, 0, 4) == 0);
    assert(spec_cell_k(4, a.vals(), 4, b.vals(), 2, 1, 4) == 0);
    assert(spec_cell_k(4, a.vals(), 4, b.vals(), 2, 2, 4) == (SCALE as int));
    assert(spec_cell_k(4, a.vals(), 4, b.vals(), 2, 3, 4) == 0);
    assert(spec_cell_k(4, a.vals(), 4, b.vals(), 3, 0, 4) == 0);
    assert(spec_cell_k(4, a.vals(), 4, b.vals(), 3, 1, 4) == 0);
    assert(spec_cell_k(4, a.vals(), 4, b.vals(), 3, 2, 4) == 0);
    assert(spec_cell_k(4, a.vals(), 4, b.vals(), 3, 3, 4) == (SCALE as int));
}

/// Undoing a translation recovers every point exactly: the inverse the
/// tracer computes maps `M * p` back to `p`.
pub proof fn lemma_translation_round_trip_point(x: int, y: int, z: int, a: Matrix, b: Matrix,
    p: Point)
    requires
        p.wf(),
        in_range(x) && in_range(y) && in_range(z),
        in_range(p.x + x) && in_range(p.y + y) && in_range(p.z + z),
        a.vals() == translation_vals(x, y, z),
        b.vals() == translation_vals(-x, -y, -z),
        a.is4x4() && b.is4x4(),
    ensures
        spec_mul_point(b, spec_mul_point(a, p)) == p,
{
    lemma_translate_point(a, x, y, z, p);
    let q = spec_mul_point(a, p);
    lemma_translate_point(b, -x, -y, -z, q);
}

} // verus!

verus! {

/// A plane's world normal under the identity transform is exactly one unit
/// long: the fixed-point arithmetic introduces no error at all here.
pub proof fn lemma_plane_normal_is_unit(s: Shape, p: Point)
    requires
        s.wf(),
        p.wf(),
        identity_transform(s),
        s.geometry is Plane,
    ensures
        crate::geometry::vector::spec_magnitude(spec_shape_normal(s, p)) == SCALE,
        spec_shape_normal(s, p) == (Vector { x: 0, y: SCALE, z: 0 }),
{
    lemma_mul_point_identity(s.transform_inverse, p);
    let n = Vector { x: 0, y: SCALE, z: 0 };
    lemma_mul_vector_identity(s.transform_inverse_transpose, n);
    lemma_sat_mul_one(SCALE as int);
    lemma_sat_mul_zero(0);
    assert(crate::geometry::vector::spec_norm2(n) == SCALE);
    crate::fixed::lemma_sqrt_of_square(SCALE as int);
    assert(crate::geometry::vector::spec_magnitude(n) == SCALE);
    lemma_sat_div_one(SCALE as int);
    lemma_sat_div_one(0);
    assert(crate::geometry::vector::spec_normalize(n) == n);
    assert(spec_shape_normal(s, p) == n);
}

} // verus!
