use whitted::display::color::Color;
use whitted::geometry::point::Point;
use whitted::geometry::transformations::{scaling, translation};
use whitted::geometry::vector::Vector;
use whitted::tracing::material::Material;
use whitted::tracing::patterns::{Checkers, Gradient, Rings, Solid, StripePattern};
use whitted::tracing::point_light::PointLight;
use whitted::tracing::shapes::shape::Shape;

fn fp(n: i64) -> i128 {
    (n as i128) * 1_000_000
}

fn fpf(x: f64) -> i128 {
    (x * 1e6).round() as i128
}

fn white() -> Color {
    Color::white()
}

fn black() -> Color {
    Color::black()
}

fn approx_color(got: Color, r: f64, g: f64, b: f64, tol: i128) -> bool {
    println!("got ({}, {}, {})", got.red, got.green, got.blue);
    (got.red - fpf(r)).abs() <= tol && (got.green - fpf(g)).abs() <= tol && (got.blue - fpf(b))
        .abs() <= tol
}

#[test]
fn default_material() {
    let m = Material::default();
    assert_eq!(0, m.reflective());
    assert_eq!(0, m.transparency());
    assert_eq!(fp(1), m.refractive_index());
}

#[test]
fn lighting_with_eye_between_light_and_surface() {
    let eye_vector = Vector::new(fp(0), fp(0), fp(-1));
    let normal = Vector::new(fp(0), fp(0), fp(-1));
    let light = PointLight::new(Point::at(fp(0), fp(0), fp(-10)), white());
    let material = Material::default();
    let result = material.lighting(&light, Point::origin(), eye_vector, normal, false);
    assert!(approx_color(result, 1.9, 1.9, 1.9, 100));
}

#[test]
fn lighting_with_eye_offset_45_degrees() {
    let s = 2.0_f64.sqrt() / 2.0;
    let eye_vector = Vector::new(fp(0), fpf(s), fpf(-s));
    let normal = Vector::new(fp(0), fp(0), fp(-1));
    let light = PointLight::new(Point::at(fp(0), fp(0), fp(-10)), white());
    let material = Material::default();
    let result = material.lighting(&light, Point::origin(), eye_vector, normal, false);
    assert!(approx_color(result, 1.0, 1.0, 1.0, 2000));
}

#[test]
fn lighting_with_light_offset_45_degrees() {
    let eye_vector = Vector::new(fp(0), fp(0), fp(-1));
    let normal = Vector::new(fp(0), fp(0), fp(-1));
    let light = PointLight::new(Point::at(fp(0), fp(10), fp(-10)), white());
    let material = Material::default();
    let result = material.lighting(&light, Point::origin(), eye_vector, normal, false);
    assert!(approx_color(result, 0.7364, 0.7364, 0.7364, 2000));
}

#[test]
fn lighting_with_eye_in_path_of_reflection() {
    let s = 2.0_f64.sqrt() / 2.0;
    let eye_vector = Vector::new(fp(0), fpf(-s), fpf(-s));
    let normal = Vector::new(fp(0), fp(0), fp(-1));
    let light = PointLight::new(Point::at(fp(0), fp(10), fp(-10)), white());
    let material = Material::default();
    let result = material.lighting(&light, Point::origin(), eye_vector, normal, false);
    assert!(approx_color(result, 1.6364, 1.6364, 1.6364, 6000));
}

#[test]
fn lighting_with_light_behind_surface() {
    let eye_vector = Vector::new(fp(0), fp(0), fp(-1));
    let normal = Vector::new(fp(0), fp(0), fp(-1));
    let light = PointLight::new(Point::at(fp(0), fp(0), fp(10)), white());
    let material = Material::default();
    let result = material.lighting(&light, Point::origin(), eye_vector, normal, false);
    assert!(approx_color(result, 0.1, 0.1, 0.1, 100));
}

#[test]
fn lighting_with_surface_in_shadow() {
    let eye_vector = Vector::new(fp(0), fp(0), fp(-1));
    let normal = Vector::new(fp(0), fp(0), fp(-1));
    let light = PointLight::new(Point::at(fp(0), fp(0), fp(-10)), white());
    let material = Material::default();
    let result = material.lighting(&light, Point::origin(), eye_vector, normal, true);
    assert!(approx_color(result, 0.1, 0.1, 0.1, 100));
}

#[test]
fn stripe_pattern_is_constant_in_y() {
    let pattern = StripePattern::new(white(), black());
    assert_eq!(white(), pattern.pattern_at(Point::at(fp(0), fp(0), fp(0))));
    assert_eq!(white(), pattern.pattern_at(Point::at(fp(0), fp(1), fp(0))));
    assert_eq!(white(), pattern.pattern_at(Point::at(fp(0), fp(2), fp(0))));
}

#[test]
fn stripe_pattern_is_constant_in_z() {
    let pattern = StripePattern::new(white(), black());
    assert_eq!(white(), pattern.pattern_at(Point::at(fp(0), fp(0), fp(1))));
    assert_eq!(white(), pattern.pattern_at(Point::at(fp(0), fp(0), fp(2))));
}

#[test]
fn stripe_pattern_alternates_in_x() {
    let pattern = StripePattern::new(white(), black());
    assert_eq!(white(), pattern.pattern_at(Point::at(fp(0), fp(0), fp(0))));
    assert_eq!(white(), pattern.pattern_at(Point::at(fpf(0.9), fp(0), fp(0))));
    assert_eq!(black(), pattern.pattern_at(Point::at(fp(1), fp(0), fp(0))));
    assert_eq!(black(), pattern.pattern_at(Point::at(fpf(-0.1), fp(0), fp(0))));
    assert_eq!(black(), pattern.pattern_at(Point::at(fp(-1), fp(0), fp(0))));
    assert_eq!(white(), pattern.pattern_at(Point::at(fpf(-1.1), fp(0), fp(0))));
}

#[test]
fn gradient_linearly_interpolates_between_colors() {
    let pattern = Gradient::new(white(), black());
    assert_eq!(white(), pattern.pattern_at(Point::at(fp(0), fp(0), fp(0))));
    let q = pattern.pattern_at(Point::at(fpf(0.25), fp(0), fp(0)));
    assert!(approx_color(q, 0.75, 0.75, 0.75, 10));
    let h = pattern.pattern_at(Point::at(fpf(0.5), fp(0), fp(0)));
    assert!(approx_color(h, 0.5, 0.5, 0.5, 10));
    let t = pattern.pattern_at(Point::at(fpf(0.75), fp(0), fp(0)));
    assert!(approx_color(t, 0.25, 0.25, 0.25, 10));
}

#[test]
fn rings_extend_in_both_x_and_z() {
    let pattern = Rings::new(white(), black());
    assert_eq!(white(), pattern.pattern_at(Point::at(fp(0), fp(0), fp(0))));
    assert_eq!(black(), pattern.pattern_at(Point::at(fp(1), fp(0), fp(0))));
    assert_eq!(black(), pattern.pattern_at(Point::at(fp(0), fp(0), fp(1))));
    assert_eq!(black(), pattern.pattern_at(Point::at(fpf(0.708), fp(0), fpf(0.708))));
}

#[test]
fn checkers_repeat_in_x() {
    let pattern = Checkers::new(white(), black());
    assert_eq!(white(), pattern.pattern_at(Point::at(fp(0), fp(0), fp(0))));
    assert_eq!(white(), pattern.pattern_at(Point::at(fpf(0.99), fp(0), fp(0))));
    assert_eq!(black(), pattern.pattern_at(Point::at(fpf(1.01), fp(0), fp(0))));
}

#[test]
fn checkers_repeat_in_y() {
    let pattern = Checkers::new(white(), black());
    assert_eq!(white(), pattern.pattern_at(Point::at(fp(0), fp(0), fp(0))));
    assert_eq!(white(), pattern.pattern_at(Point::at(fp(0), fpf(0.99), fp(0))));
    assert_eq!(black(), pattern.pattern_at(Point::at(fp(0), fpf(1.01), fp(0))));
}

#[test]
fn checkers_repeat_in_z() {
    let pattern = Checkers::new(white(), black());
    assert_eq!(white(), pattern.pattern_at(Point::at(fp(0), fp(0), fp(0))));
    assert_eq!(white(), pattern.pattern_at(Point::at(fp(0), fp(0), fpf(0.99))));
    assert_eq!(black(), pattern.pattern_at(Point::at(fp(0), fp(0), fpf(1.01))));
}

#[test]
fn solid_pattern_is_the_same_everywhere() {
    let pattern = Solid::new(white());
    assert_eq!(white(), pattern.pattern_at(Point::at(fp(0), fp(0), fp(0))));
    assert_eq!(white(), pattern.pattern_at(Point::at(fp(1), fp(0), fp(0))));
    assert_eq!(white(), pattern.pattern_at(Point::at(fp(0), fp(0), fp(1))));
}

#[test]
fn stripes_with_object_transform() {
    let pattern = StripePattern::new(white(), black());
    let object = Shape::sphere()
        .with_transform(scaling(fp(2), fp(2), fp(2)))
        .unwrap()
        .with_material(Material::default().with_pattern(pattern).with_ambient(fp(1)));
    let color = object.lighting(
        &PointLight::default_light(),
        Point::at(fpf(1.5), fp(0), fp(0)),
        Vector::new(fp(10), fp(-10), fp(10)),
        Vector::new(fp(0), fp(0), fp(0)),
        true,
    );
    assert_eq!(white(), color);
}

#[test]
fn stripes_with_pattern_transform() {
    let pattern = StripePattern::new(white(), black())
        .with_transform(scaling(fp(2), fp(2), fp(2)))
        .unwrap();
    let object = Shape::sphere()
        .with_material(Material::default().with_pattern(pattern).with_ambient(fp(1)));
    let color = object.lighting(
        &PointLight::default_light(),
        Point::at(fpf(1.5), fp(0), fp(0)),
        Vector::new(fp(10), fp(-10), fp(10)),
        Vector::new(fp(0), fp(0), fp(0)),
        true,
    );
    assert_eq!(white(), color);
}

#[test]
fn stripes_with_both_object_and_pattern_transform() {
    let pattern = StripePattern::new(white(), black())
        .with_transform(translation(fpf(0.5), fp(0), fp(0)))
        .unwrap();
    let object = Shape::sphere()
        .with_transform(scaling(fp(2), fp(2), fp(2)))
        .unwrap()
        .with_material(Material::default().with_pattern(pattern).with_ambient(fp(1)));
    let color = object.lighting(
        &PointLight::default_light(),
        Point::at(fpf(1.5), fp(0), fp(0)),
        Vector::new(fp(10), fp(-10), fp(10)),
        Vector::new(fp(0), fp(0), fp(0)),
        true,
    );
    assert_eq!(white(), color);
}

#[test]
fn material_builders_update_one_field_at_a_time() {
    let m = Material::default()
        .with_ambient(fpf(0.2))
        .with_diffuse(fpf(0.3))
        .with_specular(fpf(0.4))
        .with_shininess(fp(100))
        .with_reflective(fpf(0.5))
        .with_transparency(fpf(0.6))
        .with_refractive_index(fpf(1.5));
    assert_eq!(fpf(0.5), m.reflective());
    assert_eq!(fpf(0.6), m.transparency());
    assert_eq!(fpf(1.5), m.refractive_index());
}

#[test]
fn material_coefficients_are_clamped_to_meaningful_ranges() {
    let m = Material::default()
        .with_reflective(fp(2))
        .with_transparency(fp(-1))
        .with_refractive_index(fpf(0.5));
    assert_eq!(fp(1), m.reflective());
    assert_eq!(0, m.transparency());
    assert_eq!(fp(1), m.refractive_index());
}
