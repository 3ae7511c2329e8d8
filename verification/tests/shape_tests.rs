use whitted::geometry::point::Point;
use whitted::geometry::transformations::{rotation_z, scaling, translation};
use whitted::geometry::vector::Vector;
use whitted::tracing::ray::Ray;
use whitted::tracing::shapes::cube::Cube;
use whitted::tracing::shapes::cylinder::Cylinder;
use whitted::tracing::shapes::plane::Plane;
use whitted::tracing::shapes::shape::Shape;
use whitted::tracing::shapes::sphere::Sphere;

fn fp(n: i64) -> i128 {
    (n as i128) * 1_000_000
}

fn fpf(x: f64) -> i128 {
    (x * 1e6).round() as i128
}

const PI: f64 = std::f64::consts::PI;

#[test]
fn a_ray_intersects_sphere_at_two_points() {
    let ray = Ray::new(Point::at(fp(0), fp(0), fp(-5)), Vector::new(fp(0), fp(0), fp(1)));
    let sphere = Sphere::new();
    let intersections = sphere.intersect(&ray);
    assert_eq!(2, intersections.len());
    assert_eq!(fp(4), intersections[0]);
    assert_eq!(fp(6), intersections[1]);
}

#[test]
fn ray_intersects_sphere_at_tangent() {
    let ray = Ray::new(Point::at(fp(0), fp(1), fp(-5)), Vector::new(fp(0), fp(0), fp(1)));
    let sphere = Sphere::new();
    let intersections = sphere.intersect(&ray);
    assert_eq!(2, intersections.len());
    assert_eq!(fp(5), intersections[0]);
    assert_eq!(fp(5), intersections[1]);
}

#[test]
fn ray_misses_sphere() {
    let ray = Ray::new(Point::at(fp(0), fp(2), fp(-5)), Vector::new(fp(0), fp(0), fp(1)));
    let sphere = Shape::sphere();
    let intersections = sphere.intersect(&ray, 0);
    assert!(intersections.is_empty());
}

#[test]
fn ray_originates_inside_sphere() {
    let ray = Ray::new(Point::at(fp(0), fp(0), fp(0)), Vector::new(fp(0), fp(0), fp(1)));
    let sphere = Sphere::new();
    let intersections = sphere.intersect(&ray);
    assert_eq!(2, intersections.len());
    assert_eq!(fp(-1), intersections[0]);
    assert_eq!(fp(1), intersections[1]);
}

#[test]
fn sphere_is_behind_a_ray() {
    let ray = Ray::new(Point::at(fp(0), fp(0), fp(5)), Vector::new(fp(0), fp(0), fp(1)));
    let sphere = Sphere::new();
    let intersections = sphere.intersect(&ray);
    assert_eq!(2, intersections.len());
    assert_eq!(fp(-6), intersections[0]);
    assert_eq!(fp(-4), intersections[1]);
}

#[test]
fn intersecting_scaled_sphere_with_ray() {
    let ray = Ray::new(Point::at(fp(0), fp(0), fp(-5)), Vector::new(fp(0), fp(0), fp(1)));
    let sphere = Shape::sphere().with_transform(scaling(fp(2), fp(2), fp(2))).unwrap();
    let intersections = sphere.intersect(&ray, 0);
    assert_eq!(2, intersections.len());
    assert_eq!(fp(3), intersections[0].time());
    assert_eq!(fp(7), intersections[1].time());
}

#[test]
fn intersecting_translated_sphere_with_ray() {
    let ray = Ray::new(Point::at(fp(0), fp(0), fp(-5)), Vector::new(fp(0), fp(0), fp(1)));
    let sphere = Shape::sphere().with_transform(translation(fp(5), fp(0), fp(0))).unwrap();
    let intersections = sphere.intersect(&ray, 0);
    assert!(intersections.is_empty());
}

#[test]
fn normal_on_sphere_at_point_on_x_axis() {
    let sphere = Shape::sphere();
    let normal = sphere.normal_at(Point::at(fp(1), fp(0), fp(0)));
    assert!(normal.almost(Vector::new(fp(1), fp(0), fp(0))));
}

#[test]
fn normal_on_sphere_at_point_on_y_axis() {
    let sphere = Shape::sphere();
    let normal = sphere.normal_at(Point::at(fp(0), fp(1), fp(0)));
    assert!(normal.almost(Vector::new(fp(0), fp(1), fp(0))));
}

#[test]
fn normal_on_sphere_at_point_on_z_axis() {
    let sphere = Shape::sphere();
    let normal = sphere.normal_at(Point::at(fp(0), fp(0), fp(1)));
    assert!(normal.almost(Vector::new(fp(0), fp(0), fp(1))));
}

#[test]
fn normal_on_sphere_at_nonaxial_point() {
    let sphere = Shape::sphere();
    let c = 3.0_f64.sqrt() / 3.0;
    let normal = sphere.normal_at(Point::at(fpf(c), fpf(c), fpf(c)));
    assert!(normal.almost(Vector::new(fpf(c), fpf(c), fpf(c))));
}

#[test]
fn normal_is_normalized_vector() {
    let sphere = Shape::sphere();
    let c = 3.0_f64.sqrt() / 3.0;
    let normal = sphere.normal_at(Point::at(fpf(c), fpf(c), fpf(c)));
    assert!(normal.normalize().almost(normal));
}

#[test]
fn computing_normal_on_translated_sphere() {
    let sphere = Shape::sphere().with_transform(translation(fp(0), fp(1), fp(0))).unwrap();
    let normal = sphere.normal_at(Point::at(fp(0), fpf(1.70711), fpf(-0.70711)));
    assert!(normal.almost(Vector::new(fp(0), fpf(0.70711), fpf(-0.70711))));
}

#[test]
fn computing_normal_on_transformed_sphere() {
    let transform = scaling(fp(1), fpf(0.5), fp(1)).times(&rotation_z(fpf(PI / 5.0)));
    let sphere = Shape::sphere().with_transform(transform).unwrap();
    let s = 2.0_f64.sqrt() / 2.0;
    let normal = sphere.normal_at(Point::at(fp(0), fpf(s), fpf(-s)));
    let expected = Vector::new(fp(0), fpf(0.97014), fpf(-0.24254));
    assert!((normal.x - expected.x).abs() <= 100);
    assert!((normal.y - expected.y).abs() <= 100);
    assert!((normal.z - expected.z).abs() <= 100);
}

#[test]
fn normal_of_plane_is_constant() {
    let plane = Plane::new();
    let expected = Vector::new(fp(0), fp(1), fp(0));
    assert_eq!(expected, plane.normal_at(Point::at(fp(0), fp(0), fp(0))));
    assert_eq!(expected, plane.normal_at(Point::at(fp(10), fp(0), fp(-10))));
    assert_eq!(expected, plane.normal_at(Point::at(fp(-5), fp(0), fp(150))));
}

#[test]
fn intersect_with_ray_parallel_to_plane() {
    let plane = Plane::new();
    let ray = Ray::new(Point::at(fp(0), fp(10), fp(0)), Vector::new(fp(0), fp(0), fp(1)));
    assert!(plane.intersect(&ray).is_empty());
}

#[test]
fn intersect_with_coplaner_ray() {
    let plane = Plane::new();
    let ray = Ray::new(Point::origin(), Vector::new(fp(0), fp(0), fp(1)));
    assert!(plane.intersect(&ray).is_empty());
}

#[test]
fn ray_intersecting_plane_from_above() {
    let plane = Plane::new();
    let ray = Ray::new(Point::at(fp(0), fp(1), fp(0)), Vector::new(fp(0), fp(-1), fp(0)));
    let intersections = plane.intersect(&ray);
    assert_eq!(vec![fp(1)], intersections);
}

#[test]
fn ray_intersecting_plane_from_below() {
    let plane = Plane::new();
    let ray = Ray::new(Point::at(fp(0), fp(-1), fp(0)), Vector::new(fp(0), fp(1), fp(0)));
    let intersections = plane.intersect(&ray);
    assert_eq!(vec![fp(1)], intersections);
}

#[test]
fn ray_intersecting_a_cube() {
    let cases = vec![
        (Point::at(fp(5), fpf(0.5), fp(0)), Vector::new(fp(-1), fp(0), fp(0)), fp(4), fp(6)),
        (Point::at(fp(-5), fpf(0.5), fp(0)), Vector::new(fp(1), fp(0), fp(0)), fp(4), fp(6)),
        (Point::at(fpf(0.5), fp(5), fp(0)), Vector::new(fp(0), fp(-1), fp(0)), fp(4), fp(6)),
        (Point::at(fpf(0.5), fp(-5), fp(0)), Vector::new(fp(0), fp(1), fp(0)), fp(4), fp(6)),
        (Point::at(fpf(0.5), fp(0), fp(5)), Vector::new(fp(0), fp(0), fp(-1)), fp(4), fp(6)),
        (Point::at(fpf(0.5), fp(0), fp(-5)), Vector::new(fp(0), fp(0), fp(1)), fp(4), fp(6)),
        (Point::at(fp(0), fpf(0.5), fp(0)), Vector::new(fp(0), fp(0), fp(1)), fp(-1), fp(1)),
    ];
    for (origin, direction, t1, t2) in cases {
        let cube = Cube::new();
        let ray = Ray::new(origin, direction);
        let intersections = cube.intersect(&ray);
        assert_eq!(t1, intersections[0]);
        assert_eq!(t2, intersections[1]);
    }
}

#[test]
fn ray_misses_cube() {
    let cases = vec![
        (Point::at(fp(-2), fp(0), fp(0)), Vector::new(fpf(0.2673), fpf(0.5345), fpf(0.8018))),
        (Point::at(fp(0), fp(-2), fp(0)), Vector::new(fpf(0.8018), fpf(0.2673), fpf(0.5345))),
        (Point::at(fp(0), fp(0), fp(-2)), Vector::new(fpf(0.5345), fpf(0.8018), fpf(0.2673))),
        (Point::at(fp(2), fp(0), fp(2)), Vector::new(fp(0), fp(0), fp(-1))),
        (Point::at(fp(0), fp(2), fp(2)), Vector::new(fp(0), fp(-1), fp(0))),
        (Point::at(fp(2), fp(2), fp(0)), Vector::new(fp(-1), fp(0), fp(0))),
    ];
    for (origin, direction) in cases {
        let cube = Cube::new();
        let ray = Ray::new(origin, direction);
        assert!(cube.intersect(&ray).is_empty());
    }
}

#[test]
fn normal_on_surface_of_cube() {
    let cases = vec![
        (Point::at(fp(1), fpf(0.5), fpf(-0.8)), Vector::new(fp(1), fp(0), fp(0))),
        (Point::at(fp(-1), fpf(-0.2), fpf(0.9)), Vector::new(fp(-1), fp(0), fp(0))),
        (Point::at(fpf(-0.4), fp(1), fpf(-0.1)), Vector::new(fp(0), fp(1), fp(0))),
        (Point::at(fpf(0.3), fp(-1), fpf(-0.7)), Vector::new(fp(0), fp(-1), fp(0))),
        (Point::at(fpf(-0.6), fpf(0.3), fp(1)), Vector::new(fp(0), fp(0), fp(1))),
        (Point::at(fpf(0.4), fpf(0.4), fp(-1)), Vector::new(fp(0), fp(0), fp(-1))),
        (Point::at(fp(1), fp(1), fp(1)), Vector::new(fp(1), fp(0), fp(0))),
        (Point::at(fp(-1), fp(-1), fp(-1)), Vector::new(fp(-1), fp(0), fp(0))),
    ];
    for (point, expected_normal) in cases {
        let cube = Cube::new();
        assert_eq!(expected_normal, cube.normal_at(point));
    }
}

#[test]
fn ray_misses_a_cylinder() {
    let cases = vec![
        (Point::at(fp(1), fp(0), fp(0)), Vector::new(fp(0), fp(1), fp(0))),
        (Point::at(fp(0), fp(0), fp(0)), Vector::new(fp(0), fp(1), fp(0))),
        (Point::at(fp(0), fp(0), fp(-5)), Vector::new(fp(1), fp(1), fp(1))),
    ];
    for (origin, direction) in cases {
        let cylinder = Cylinder::infinite();
        let direction = direction.normalize();
        let ray = Ray::new(origin, direction);
        assert!(cylinder.intersect(&ray).is_empty());
    }
}

#[test]
fn ray_strikes_a_cylinder() {
    let cases = vec![
        (Point::at(fp(1), fp(0), fp(-5)), Vector::new(fp(0), fp(0), fp(1)), 5.0, 5.0),
        (Point::at(fp(0), fp(0), fp(-5)), Vector::new(fp(0), fp(0), fp(1)), 4.0, 6.0),
        (
            Point::at(fpf(0.5), fp(0), fp(-5)),
            Vector::new(fpf(0.1), fp(1), fp(1)),
            6.80798,
            7.08872,
        ),
    ];
    for (origin, direction, t1, t2) in cases {
        let cylinder = Cylinder::infinite();
        let direction = direction.normalize();
        let ray = Ray::new(origin, direction);
        let intersections = cylinder.intersect(&ray);
        assert_eq!(2, intersections.len());
        assert!((intersections[0] - fpf(t1)).abs() <= 2000);
        assert!((intersections[1] - fpf(t2)).abs() <= 2000);
    }
}

#[test]
fn normal_vector_of_cylinder() {
    let cases = vec![
        (Point::at(fp(1), fp(0), fp(0)), Vector::new(fp(1), fp(0), fp(0))),
        (Point::at(fp(0), fp(5), fp(-1)), Vector::new(fp(0), fp(0), fp(-1))),
        (Point::at(fp(0), fp(-2), fp(1)), Vector::new(fp(0), fp(0), fp(1))),
        (Point::at(fp(-1), fp(1), fp(0)), Vector::new(fp(-1), fp(0), fp(0))),
    ];
    for (point, normal) in cases {
        let cylinder = Cylinder::infinite();
        assert_eq!(normal, cylinder.normal_at(point));
    }
}

#[test]
fn intersecting_constrained_cylinder() {
    let cases = vec![
        (Point::at(fp(0), fpf(1.5), fp(0)), Vector::new(fpf(0.1), fp(1), fp(0)), 0),
        (Point::at(fp(0), fp(3), fp(-5)), Vector::new(fp(0), fp(0), fp(1)), 0),
        (Point::at(fp(0), fp(0), fp(-5)), Vector::new(fp(0), fp(0), fp(1)), 0),
        (Point::at(fp(0), fp(2), fp(-5)), Vector::new(fp(0), fp(0), fp(1)), 0),
        (Point::at(fp(0), fp(1), fp(-5)), Vector::new(fp(0), fp(0), fp(1)), 0),
        (Point::at(fp(0), fpf(1.5), fp(-2)), Vector::new(fp(0), fp(0), fp(1)), 2),
    ];
    for (origin, direction, count) in cases {
        let cylinder = Cylinder::new(fp(1), fp(2));
        let direction = direction.normalize();
        let ray = Ray::new(origin, direction);
        assert_eq!(count, cylinder.intersect(&ray).len());
    }
}

#[test]
fn intersect_caps_of_closed_cylinder() {
    let cases = vec![
        (Point::at(fp(0), fp(3), fp(0)), Vector::new(fp(0), fp(-1), fp(0)), 2),
        (Point::at(fp(0), fp(3), fp(-2)), Vector::new(fp(0), fp(-1), fp(2)), 2),
        (Point::at(fp(0), fp(4), fp(-2)), Vector::new(fp(0), fp(-1), fp(1)), 2),
        (Point::at(fp(0), fp(0), fp(-2)), Vector::new(fp(0), fp(1), fp(2)), 2),
        (Point::at(fp(0), fp(-1), fp(-2)), Vector::new(fp(0), fp(1), fp(1)), 2),
    ];
    for (point, direction, count) in cases {
        let cylinder = Cylinder::new(fp(1), fp(2)).capped();
        let direction = direction.normalize();
        let ray = Ray::new(point, direction);
        assert_eq!(count, cylinder.intersect(&ray).len());
    }
}

#[test]
fn normal_at_end_caps() {
    let cases = vec![
        (Point::at(fp(0), fp(1), fp(0)), Vector::new(fp(0), fp(-1), fp(0))),
        (Point::at(fpf(0.5), fp(1), fp(0)), Vector::new(fp(0), fp(-1), fp(0))),
        (Point::at(fp(0), fp(1), fpf(0.5)), Vector::new(fp(0), fp(-1), fp(0))),
        (Point::at(fp(0), fp(2), fp(0)), Vector::new(fp(0), fp(1), fp(0))),
        (Point::at(fpf(0.5), fp(2), fp(0)), Vector::new(fp(0), fp(1), fp(0))),
        (Point::at(fp(0), fp(2), fpf(0.5)), Vector::new(fp(0), fp(1), fp(0))),
    ];
    for (point, normal) in cases {
        let cylinder = Cylinder::new(fp(1), fp(2)).capped();
        assert_eq!(normal, cylinder.normal_at(point));
    }
}

#[test]
fn identity_transform_preserves_primitive_times() {
    let ray = Ray::new(Point::at(fp(0), fp(0), fp(-5)), Vector::new(fp(0), fp(0), fp(1)));
    let bare = Sphere::new().intersect(&ray);
    let wrapped = Shape::sphere().intersect(&ray, 7);
    assert_eq!(bare.len(), wrapped.len());
    for k in 0..bare.len() {
        assert_eq!(bare[k], wrapped[k].time());
        assert_eq!(7, wrapped[k].shape);
    }
}
