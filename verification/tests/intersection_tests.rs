use whitted::fixed::SCALE;
use whitted::geometry::point::Point;
use whitted::geometry::transformations::translation;
use whitted::geometry::vector::Vector;
use whitted::tracing::intersection::{Intersection, Intersections};
use whitted::tracing::material::Material;
use whitted::tracing::ray::Ray;
use whitted::tracing::shapes::shape::Shape;

fn fp(n: i64) -> i128 {
    (n as i128) * 1_000_000
}

fn fpf(x: f64) -> i128 {
    (x * 1e6).round() as i128
}

fn glass_sphere() -> Shape {
    Shape::sphere().with_material(
        Material::default().with_transparency(fp(1)).with_refractive_index(fpf(1.5)),
    )
}

#[test]
fn intersection_encapsulates_t_and_object() {
    let intersection = Intersection::new(fpf(3.5), 0);
    assert_eq!(fpf(3.5), intersection.time());
    assert_eq!(0, intersection.shape);
}

#[test]
fn aggregating_intersections() {
    let i1 = Intersection::new(fp(1), 0);
    let i2 = Intersection::new(fp(2), 0);
    let intersections = Intersections::new(vec![i1, i2]);
    assert_eq!(2, intersections.len());
    assert_eq!(i1, intersections.at(0));
    assert_eq!(i2, intersections.at(1));
}

#[test]
fn intersections_are_sorted_by_time() {
    let i1 = Intersection::new(fp(5), 0);
    let i2 = Intersection::new(fp(-3), 1);
    let i3 = Intersection::new(fp(2), 2);
    let intersections = Intersections::new(vec![i1, i2, i3]);
    assert_eq!(fp(-3), intersections.at(0).time());
    assert_eq!(fp(2), intersections.at(1).time());
    assert_eq!(fp(5), intersections.at(2).time());
}

#[test]
fn sort_is_stable_for_equal_times() {
    let i1 = Intersection::new(fp(1), 7);
    let i2 = Intersection::new(fp(1), 9);
    let intersections = Intersections::new(vec![i1, i2]);
    assert_eq!(7, intersections.at(0).shape);
    assert_eq!(9, intersections.at(1).shape);
}

#[test]
fn hit_when_all_intersections_have_positive_t() {
    let i1 = Intersection::new(fp(1), 0);
    let i2 = Intersection::new(fp(2), 0);
    let intersections = Intersections::new(vec![i1, i2]);
    assert_eq!(Some(i1), intersections.hit());
}

#[test]
fn hit_when_some_intersections_have_negative_t() {
    let i1 = Intersection::new(fp(-1), 0);
    let i2 = Intersection::new(fp(1), 0);
    let intersections = Intersections::new(vec![i1, i2]);
    assert_eq!(Some(i2), intersections.hit());
}

#[test]
fn hit_when_all_intersections_have_negative_t() {
    let i1 = Intersection::new(fp(-2), 0);
    let i2 = Intersection::new(fp(-1), 0);
    let intersections = Intersections::new(vec![i1, i2]);
    assert!(intersections.hit().is_none());
}

#[test]
fn hit_is_always_the_lowest_nonnegative_intersection() {
    let i1 = Intersection::new(fp(5), 0);
    let i2 = Intersection::new(fp(7), 0);
    let i3 = Intersection::new(fp(-3), 0);
    let i4 = Intersection::new(fp(2), 0);
    let intersections = Intersections::new(vec![i1, i2, i3, i4]);
    assert_eq!(Some(i4), intersections.hit());
}

#[test]
fn precomputing_state_of_an_intersection() {
    let ray = Ray::new(Point::at(fp(0), fp(0), fp(-5)), Vector::new(fp(0), fp(0), fp(1)));
    let shapes = vec![Shape::sphere()];
    let hit = Intersection::new(fp(4), 0);
    let all = Intersections::new(vec![hit, Intersection::new(fp(6), 0)]);
    let comps = hit.pre_computations(&ray, &all, &shapes);
    assert_eq!(fp(4), comps.time);
    assert_eq!(0, comps.shape);
    assert!(comps.point.almost(Point::at(fp(0), fp(0), fp(-1))));
    assert!(comps.eye_vector.almost(Vector::new(fp(0), fp(0), fp(-1))));
    assert!(comps.normal_vector.almost(Vector::new(fp(0), fp(0), fp(-1))));
    assert!(!comps.inside);
}

#[test]
fn the_hit_when_an_intersection_occurs_on_the_inside() {
    let ray = Ray::new(Point::at(fp(0), fp(0), fp(0)), Vector::new(fp(0), fp(0), fp(1)));
    let shapes = vec![Shape::sphere()];
    let hit = Intersection::new(fp(1), 0);
    let all = Intersections::new(vec![Intersection::new(fp(-1), 0), hit]);
    let comps = hit.pre_computations(&ray, &all, &shapes);
    assert!(comps.inside);
    assert!(comps.point.almost(Point::at(fp(0), fp(0), fp(1))));
    assert!(comps.eye_vector.almost(Vector::new(fp(0), fp(0), fp(-1))));
    assert!(comps.normal_vector.almost(Vector::new(fp(0), fp(0), fp(-1))));
}

#[test]
fn the_hit_should_offset_the_point() {
    let ray = Ray::new(Point::at(fp(0), fp(0), fp(-5)), Vector::new(fp(0), fp(0), fp(1)));
    let sphere = Shape::sphere().with_transform(translation(fp(0), fp(0), fp(1))).unwrap();
    let shapes = vec![sphere];
    let intersection = Intersection::new(fp(5), 0);
    let all = Intersections::new(vec![intersection]);
    let pre = intersection.pre_computations(&ray, &all, &shapes);
    assert!(pre.over_point.z < -whitted::fixed::EPS / 2);
    assert!(pre.point.z > pre.over_point.z);
}

#[test]
fn under_point_is_below_surface() {
    let ray = Ray::new(Point::at(fp(0), fp(0), fp(-5)), Vector::new(fp(0), fp(0), fp(1)));
    let sphere = Shape::sphere().with_transform(translation(fp(0), fp(0), fp(1))).unwrap();
    let shapes = vec![sphere];
    let intersection = Intersection::new(fp(5), 0);
    let all = Intersections::new(vec![intersection]);
    let details = intersection.pre_computations(&ray, &all, &shapes);
    assert!(details.under_point.z > whitted::fixed::EPS / 2);
    assert!(details.point.z < details.under_point.z);
}

#[test]
fn precompute_reflective_vector() {
    let shape = Shape::plane();
    let shapes = vec![shape];
    let s = 2.0_f64.sqrt() / 2.0;
    let ray = Ray::new(Point::at(fp(0), fp(1), fp(-1)), Vector::new(fp(0), fpf(-s), fpf(s)));
    let intersection = Intersection::new(fpf(2.0_f64.sqrt()), 0);
    let all = Intersections::new(vec![intersection]);
    let pre = intersection.pre_computations(&ray, &all, &shapes);
    assert!(pre.reflect_vector.almost(Vector::new(fp(0), fpf(s), fpf(s))));
}

#[test]
fn finding_refractive_indices_through_nested_glass() {
    let a = glass_sphere()
        .with_transform(whitted::geometry::transformations::scaling(fp(2), fp(2), fp(2)))
        .unwrap()
        .with_material(
            Material::default().with_transparency(fp(1)).with_refractive_index(fpf(1.5)),
        );
    let b = glass_sphere()
        .with_transform(translation(fp(0), fp(0), fpf(-0.25)))
        .unwrap()
        .with_material(
            Material::default().with_transparency(fp(1)).with_refractive_index(fp(2)),
        );
    let c = glass_sphere()
        .with_transform(translation(fp(0), fp(0), fpf(0.25)))
        .unwrap()
        .with_material(
            Material::default().with_transparency(fp(1)).with_refractive_index(fpf(2.5)),
        );
    let shapes = vec![a, b, c];
    let entries = vec![
        Intersection::new(fp(2), 0),
        Intersection::new(fpf(2.75), 1),
        Intersection::new(fpf(3.25), 2),
        Intersection::new(fpf(4.75), 1),
        Intersection::new(fpf(5.25), 2),
        Intersection::new(fp(6), 0),
    ];
    let all = Intersections::new(entries.clone());
    let expected = vec![
        (fp(1), fpf(1.5)),
        (fpf(1.5), fp(2)),
        (fp(2), fpf(2.5)),
        (fpf(2.5), fpf(2.5)),
        (fpf(2.5), fpf(1.5)),
        (fpf(1.5), fp(1)),
    ];
    for (k, (n1, n2)) in expected.into_iter().enumerate() {
        let (got1, got2) = entries[k].find_refractive_indexes(&all, &shapes);
        assert_eq!(n1, got1);
        assert_eq!(n2, got2);
    }
}

#[test]
fn schlick_under_total_internal_reflection() {
    let shapes = vec![glass_sphere()];
    let s = 2.0_f64.sqrt() / 2.0;
    let ray = Ray::new(Point::at(fp(0), fp(0), fpf(s)), Vector::new(fp(0), fp(1), fp(0)));
    let entries = vec![Intersection::new(fpf(-s), 0), Intersection::new(fpf(s), 0)];
    let all = Intersections::new(entries.clone());
    let pre = entries[1].pre_computations(&ray, &all, &shapes);
    let reflectance = pre.schlick();
    assert_eq!(SCALE, reflectance);
}

#[test]
fn schlick_with_perpendicular_view() {
    let shapes = vec![glass_sphere()];
    let ray = Ray::new(Point::at(fp(0), fp(0), fp(0)), Vector::new(fp(0), fp(1), fp(0)));
    let entries = vec![Intersection::new(fp(-1), 0), Intersection::new(fp(1), 0)];
    let all = Intersections::new(entries.clone());
    let pre = entries[1].pre_computations(&ray, &all, &shapes);
    let reflectance = pre.schlick();
    assert!((reflectance - fpf(0.04)).abs() <= 2000);
}

#[test]
fn schlick_with_small_angle_and_larger_second_index() {
    let shapes = vec![glass_sphere()];
    let ray = Ray::new(Point::at(fp(0), fpf(0.99), fp(-2)), Vector::new(fp(0), fp(0), fp(1)));
    let entries = vec![Intersection::new(fpf(1.8589), 0)];
    let all = Intersections::new(entries.clone());
    let pre = entries[0].pre_computations(&ray, &all, &shapes);
    let reflectance = pre.schlick();
    println!("schlick small angle: {}", reflectance);
    assert!((reflectance - fpf(0.48873)).abs() <= 20000);
}

#[test]
fn schlick_lies_in_the_unit_interval_at_grazing_view() {
    let shapes = vec![glass_sphere()];
    let ray = Ray::new(
        Point::at(fp(0), fpf(0.9999), fp(-2)),
        Vector::new(fp(0), fp(0), fp(1)),
    );
    let all = {
        let world = whitted::tracing::world::World::new(
            shapes.clone(),
            whitted::tracing::point_light::PointLight::default_light(),
        );
        world.intersected_by(&ray)
    };
    if let Some(h) = all.hit() {
        let pre = h.pre_computations(&ray, &all, &shapes);
        let reflectance = pre.schlick();
        assert!(0 <= reflectance && reflectance <= SCALE);
        assert!(reflectance > fpf(0.5));
    } else {
        panic!("expected the grazing ray to strike the sphere");
    }
}
