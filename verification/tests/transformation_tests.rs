use whitted::geometry::matrix::Matrix;
use whitted::geometry::point::Point;
use whitted::geometry::transformations::{
    rotation_x, rotation_y, rotation_z, scaling, shearing, translation, view_transform,
};
use whitted::geometry::vector::Vector;

fn fp(n: i64) -> i128 {
    (n as i128) * 1_000_000
}

fn fpf(x: f64) -> i128 {
    (x * 1e6).round() as i128
}

fn rad(x: f64) -> i128 {
    fpf(x)
}

fn approx_point(a: Point, b: Point, tol: i128) -> bool {
    (a.x - b.x).abs() <= tol && (a.y - b.y).abs() <= tol && (a.z - b.z).abs() <= tol
}

fn approx_vector(a: Vector, b: Vector, tol: i128) -> bool {
    (a.x - b.x).abs() <= tol && (a.y - b.y).abs() <= tol && (a.z - b.z).abs() <= tol
}

const PI: f64 = std::f64::consts::PI;

#[test]
fn multiplying_a_translation_matrix() {
    let translation = translation(fp(5), fp(-3), fp(2));
    let point = Point::at(fp(-3), fp(4), fp(5));
    assert_eq!(Point::at(fp(2), fp(1), fp(7)), translation.mul_point(point));
}

#[test]
fn multiplying_by_inverse_of_translation() {
    let translation = translation(fp(5), fp(-3), fp(2));
    let inverse_translation = translation.inverse().unwrap();
    let point = Point::at(fp(-3), fp(4), fp(5));
    assert_eq!(Point::at(fp(-8), fp(7), fp(3)), inverse_translation.mul_point(point));
}

#[test]
fn translation_does_not_affect_vectors() {
    let translation = translation(fp(5), fp(-3), fp(2));
    let vector = Vector::new(fp(-3), fp(4), fp(5));
    assert_eq!(vector, translation.mul_vector(vector));
}

#[test]
fn scaling_matrix_applied_to_point() {
    let scaling = scaling(fp(2), fp(3), fp(4));
    let point = Point::at(fp(-4), fp(6), fp(8));
    assert_eq!(Point::at(fp(-8), fp(18), fp(32)), scaling.mul_point(point));
}

#[test]
fn scaling_matrix_applied_to_vector() {
    let scaling = scaling(fp(2), fp(3), fp(4));
    let vector = Vector::new(fp(-4), fp(6), fp(8));
    assert_eq!(Vector::new(fp(-8), fp(18), fp(32)), scaling.mul_vector(vector));
}

#[test]
fn multiplying_by_the_inverse_of_scaling_matrix() {
    let scaling = scaling(fp(2), fp(3), fp(4));
    let inverse_scaling = scaling.inverse().unwrap();
    let vector = Vector::new(fp(-4), fp(6), fp(8));
    assert!(approx_vector(
        Vector::new(fp(-2), fp(2), fp(2)),
        inverse_scaling.mul_vector(vector),
        20,
    ));
}

#[test]
fn reflection_is_scaling_by_a_negative_value() {
    let x_reflection = scaling(fp(-1), fp(1), fp(1));
    let point = Point::at(fp(2), fp(3), fp(4));
    assert_eq!(Point::at(fp(-2), fp(3), fp(4)), x_reflection.mul_point(point));
}

#[test]
fn rotating_a_point_around_the_x_axis() {
    let point = Point::at(fp(0), fp(1), fp(0));
    let half_quarter = rotation_x(rad(PI / 4.0));
    let full_quarter = rotation_x(rad(PI / 2.0));
    let s = 2.0_f64.sqrt() / 2.0;
    assert!(approx_point(
        Point::at(fp(0), fpf(s), fpf(s)),
        half_quarter.mul_point(point),
        60,
    ));
    assert!(approx_point(Point::at(fp(0), fp(0), fp(1)), full_quarter.mul_point(point), 60));
}

#[test]
fn inverse_of_an_x_rotation_rotates_in_the_opposite_direction() {
    let point = Point::at(fp(0), fp(1), fp(0));
    let half_quarter = rotation_x(rad(PI / 4.0));
    let inverse = half_quarter.inverse().unwrap();
    let s = 2.0_f64.sqrt() / 2.0;
    assert!(approx_point(Point::at(fp(0), fpf(s), fpf(-s)), inverse.mul_point(point), 60));
}

#[test]
fn rotating_a_point_around_the_y_axis() {
    let point = Point::at(fp(0), fp(0), fp(1));
    let half_quarter = rotation_y(rad(PI / 4.0));
    let full_quarter = rotation_y(rad(PI / 2.0));
    let s = 2.0_f64.sqrt() / 2.0;
    assert!(approx_point(Point::at(fpf(s), fp(0), fpf(s)), half_quarter.mul_point(point), 60));
    assert!(approx_point(Point::at(fp(1), fp(0), fp(0)), full_quarter.mul_point(point), 60));
}

#[test]
fn rotating_a_point_around_the_z_axis() {
    let point = Point::at(fp(0), fp(1), fp(0));
    let half_quarter = rotation_z(rad(PI / 4.0));
    let full_quarter = rotation_z(rad(PI / 2.0));
    let s = 2.0_f64.sqrt() / 2.0;
    assert!(approx_point(
        Point::at(fpf(-s), fpf(s), fp(0)),
        half_quarter.mul_point(point),
        60,
    ));
    assert!(approx_point(Point::at(fp(-1), fp(0), fp(0)), full_quarter.mul_point(point), 60));
}

#[test]
fn shearing_transformation_moves_x_in_proportion_to_y() {
    let point = Point::at(fp(2), fp(3), fp(4));
    let transformation = shearing(fp(1), fp(0), fp(0), fp(0), fp(0), fp(0));
    assert_eq!(Point::at(fp(5), fp(3), fp(4)), transformation.mul_point(point));
}

#[test]
fn shearing_transformation_moves_x_in_proportion_to_z() {
    let point = Point::at(fp(2), fp(3), fp(4));
    let transformation = shearing(fp(0), fp(1), fp(0), fp(0), fp(0), fp(0));
    assert_eq!(Point::at(fp(6), fp(3), fp(4)), transformation.mul_point(point));
}

#[test]
fn shearing_transformation_moves_y_in_proportion_to_x() {
    let point = Point::at(fp(2), fp(3), fp(4));
    let transformation = shearing(fp(0), fp(0), fp(1), fp(0), fp(0), fp(0));
    assert_eq!(Point::at(fp(2), fp(5), fp(4)), transformation.mul_point(point));
}

#[test]
fn shearing_transformation_moves_y_in_proportion_to_z() {
    let point = Point::at(fp(2), fp(3), fp(4));
    let transformation = shearing(fp(0), fp(0), fp(0), fp(1), fp(0), fp(0));
    assert_eq!(Point::at(fp(2), fp(7), fp(4)), transformation.mul_point(point));
}

#[test]
fn shearing_transformation_moves_z_in_proportion_to_x() {
    let point = Point::at(fp(2), fp(3), fp(4));
    let transformation = shearing(fp(0), fp(0), fp(0), fp(0), fp(1), fp(0));
    assert_eq!(Point::at(fp(2), fp(3), fp(6)), transformation.mul_point(point));
}

#[test]
fn shearing_transformation_moves_z_in_proportion_to_y() {
    let point = Point::at(fp(2), fp(3), fp(4));
    let transformation = shearing(fp(0), fp(0), fp(0), fp(0), fp(0), fp(1));
    assert_eq!(Point::at(fp(2), fp(3), fp(7)), transformation.mul_point(point));
}

#[test]
fn individual_transformations_are_applied_in_sequence() {
    let point = Point::at(fp(1), fp(0), fp(1));
    let transform_a = rotation_x(rad(PI / 2.0));
    let transform_b = scaling(fp(5), fp(5), fp(5));
    let transform_c = translation(fp(10), fp(5), fp(7));
    let point2 = transform_a.mul_point(point);
    assert!(approx_point(Point::at(fp(1), fp(-1), fp(0)), point2, 60));
    let point3 = transform_b.mul_point(point2);
    assert!(approx_point(Point::at(fp(5), fp(-5), fp(0)), point3, 300));
    let point4 = transform_c.mul_point(point3);
    assert!(approx_point(Point::at(fp(15), fp(0), fp(7)), point4, 300));
}

#[test]
fn chained_transformations_must_be_applied_in_reverse_order() {
    let point = Point::at(fp(1), fp(0), fp(1));
    let transform_a = rotation_x(rad(PI / 2.0));
    let transform_b = scaling(fp(5), fp(5), fp(5));
    let transform_c = translation(fp(10), fp(5), fp(7));
    let combined_transform = transform_c.times(&transform_b).times(&transform_a);
    assert!(approx_point(
        Point::at(fp(15), fp(0), fp(7)),
        combined_transform.mul_point(point),
        300,
    ));
}

#[test]
fn fluently_chained_transformations_must_be_applied_in_reverse_order() {
    let point = Point::at(fp(1), fp(0), fp(1));
    let transform_a = rotation_x(rad(PI / 2.0));
    let transform_b = scaling(fp(5), fp(5), fp(5));
    let transform_c = translation(fp(10), fp(5), fp(7));
    let combined_transform = transform_a.then(&transform_b).then(&transform_c);
    assert!(approx_point(
        Point::at(fp(15), fp(0), fp(7)),
        combined_transform.mul_point(point),
        300,
    ));
}

#[test]
fn transformation_matrix_for_default_orientation() {
    let from = Point::at(fp(0), fp(0), fp(0));
    let to = Point::at(fp(0), fp(0), fp(-1));
    let up = Vector::new(fp(0), fp(1), fp(0));
    let result = view_transform(from, to, up);
    assert!(Matrix::identity(4).almost_eq(&result));
}

#[test]
fn view_transformation_looking_in_positive_z() {
    let from = Point::at(fp(0), fp(0), fp(0));
    let to = Point::at(fp(0), fp(0), fp(1));
    let up = Vector::new(fp(0), fp(1), fp(0));
    let result = view_transform(from, to, up);
    assert!(scaling(fp(-1), fp(1), fp(-1)).almost_eq(&result));
}

#[test]
fn the_view_transformation_moves_the_world() {
    let from = Point::at(fp(0), fp(0), fp(8));
    let to = Point::at(fp(0), fp(0), fp(0));
    let up = Vector::new(fp(0), fp(1), fp(0));
    let result = view_transform(from, to, up);
    assert!(translation(fp(0), fp(0), fp(-8)).almost_eq(&result));
}

#[test]
fn an_arbitrary_view_transformation() {
    let from = Point::at(fp(1), fp(3), fp(2));
    let to = Point::at(fp(4), fp(-2), fp(8));
    let up = Vector::new(fp(1), fp(1), fp(0));
    let result = view_transform(from, to, up);
    let expected = Matrix::of_size(4, 4).of(vec![
        fpf(-0.50709),
        fpf(0.50709),
        fpf(0.67612),
        fpf(-2.36643),
        fpf(0.76772),
        fpf(0.60609),
        fpf(0.12122),
        fpf(-2.82843),
        fpf(-0.35857),
        fpf(0.59761),
        fpf(-0.71714),
        fp(0),
        fp(0),
        fp(0),
        fp(0),
        fp(1),
    ]);
    for i in 0..4 {
        for j in 0..4 {
            assert!((expected.get(i, j) - result.get(i, j)).abs() <= 60);
        }
    }
}
