use whitted::fixed::{
    fabs, fadd, fcos, fdiv, ffloor, fmul, fpow, fsin, fsqrt, fsub, ftan, EPS, LIM, SCALE,
};
use whitted::helpers::general::{enumerate_coordinates, OrderedTuple};

fn fp(n: i64) -> i128 {
    (n as i128) * 1_000_000
}

fn fpf(x: f64) -> i128 {
    (x * 1e6).round() as i128
}

const PI: f64 = std::f64::consts::PI;

#[test]
fn arithmetic_on_whole_units() {
    assert_eq!(fp(5), fadd(fp(2), fp(3)));
    assert_eq!(fp(-1), fsub(fp(2), fp(3)));
    assert_eq!(fp(6), fmul(fp(2), fp(3)));
    assert_eq!(666_666, fdiv(fp(2), fp(3)));
    assert_eq!(fp(2), fabs(fp(-2)));
}

#[test]
fn addition_saturates_at_the_storable_bound() {
    assert_eq!(LIM, fadd(LIM, fp(1)));
    assert_eq!(-LIM, fsub(-LIM, fp(1)));
}

#[test]
fn square_root_of_whole_squares_is_exact() {
    assert_eq!(fp(3), fsqrt(fp(9)));
    assert_eq!(fp(12), fsqrt(fp(144)));
    assert_eq!(0, fsqrt(0));
    assert_eq!(fpf(1.414213), fsqrt(fp(2)));
}

#[test]
fn powers_of_unit_fractions_shrink() {
    assert_eq!(SCALE, fpow(SCALE, 200));
    assert_eq!(0, fpow(0, 3));
    let half_squared = fpow(fpf(0.5), 2);
    assert_eq!(fpf(0.25), half_squared);
}

#[test]
fn floors_round_toward_negative_infinity() {
    assert_eq!(1, ffloor(fpf(1.5)));
    assert_eq!(-2, ffloor(fpf(-1.5)));
    assert_eq!(2, ffloor(fp(2)));
    assert_eq!(-2, ffloor(fp(-2)));
    assert_eq!(0, ffloor(fpf(0.999999)));
}

#[test]
fn sine_and_cosine_approximate_the_circle() {
    assert!((fsin(0)).abs() <= EPS);
    assert!((fsin(fpf(PI / 2.0)) - SCALE).abs() <= 20);
    assert!((fsin(fpf(PI))).abs() <= 20);
    assert!((fcos(0) - SCALE).abs() <= 20);
    assert!((fcos(fpf(PI)) + SCALE).abs() <= 20);
    assert!((fsin(fpf(PI / 6.0)) - fpf(0.5)).abs() <= 20);
}

#[test]
fn tangent_of_a_quarter_turn_is_one() {
    assert!((ftan(fpf(PI / 4.0)) - SCALE).abs() <= 60);
}

#[test]
fn enumerate_coordinates_walks_x_major() {
    let coords = enumerate_coordinates(0..2, 0..3);
    assert_eq!(
        vec![(0, 0), (0, 1), (0, 2), (1, 0), (1, 1), (1, 2)],
        coords,
    );
    assert!(enumerate_coordinates(3..3, 0..5).is_empty());
}

#[test]
fn ordered_tuple_sorts_its_parts() {
    assert_eq!((fp(1), fp(2)), (fp(2), fp(1)).ordered());
    assert_eq!((fp(1), fp(2)), (fp(1), fp(2)).ordered());
}
