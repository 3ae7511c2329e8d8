use whitted::geometry::matrix::Matrix;
use whitted::geometry::point::Point;
use whitted::geometry::vector::Vector;

fn fp(n: i64) -> i128 {
    (n as i128) * 1_000_000
}

fn fpf(x: f64) -> i128 {
    (x * 1e6).round() as i128
}

fn fpv(values: Vec<i64>) -> Vec<i128> {
    values.into_iter().map(fp).collect()
}

fn approx(a: i128, b: i128, tol: i128) -> bool {
    (a - b).abs() <= tol
}

#[test]
fn test_create_and_access() {
    let matrix = Matrix::square(2).of(fpv(vec![1, 2, 3, 4]));
    assert_eq!(fp(1), matrix.get(0, 0));
    assert_eq!(fp(2), matrix.get(0, 1));
    assert_eq!(fp(3), matrix.get(1, 0));
    assert_eq!(fp(4), matrix.get(1, 1));
}

#[test]
fn test_equals_almost() {
    let one = Matrix::square(2).of(vec![fpf(1.1), fpf(2.2), fpf(3.3), fpf(4.4)]);
    let two = Matrix::square(2).of(vec![fpf(1.1), fpf(2.2), fpf(3.3), fpf(4.4)]);
    assert!(one.almost_eq(&two));
}

#[test]
fn test_not_equals() {
    let matrix_a = Matrix::of_size(4, 4).of(fpv(vec![
        1, 2, 3, 4, 5, 6, 7, 8, 9, 8, 7, 6, 5, 4, 3, 2,
    ]));
    let matrix_b = Matrix::of_size(4, 4).of(fpv(vec![
        2, 3, 4, 5, 6, 7, 8, 9, 8, 7, 6, 5, 4, 3, 2, 1,
    ]));
    assert!(!matrix_a.almost_eq(&matrix_b));
}

#[test]
fn test_multiplication_by_identity() {
    let one = Matrix::square(2).of(vec![fpf(1.1), fpf(2.2), fpf(3.3), fpf(4.4)]);
    let two = Matrix::identity(2);
    assert!(one.almost_eq(&one.times(&two)));
}

#[test]
fn test_multiplication() {
    let matrix_a = Matrix::of_size(4, 4).of(fpv(vec![
        1, 2, 3, 4, 5, 6, 7, 8, 9, 8, 7, 6, 5, 4, 3, 2,
    ]));
    let matrix_b = Matrix::of_size(4, 4).of(fpv(vec![
        -2, 1, 2, 3, 3, 2, 1, -1, 4, 3, 6, 5, 1, 2, 7, 8,
    ]));
    let expected_result = Matrix::of_size(4, 4).of(fpv(vec![
        20, 22, 50, 48, 44, 54, 114, 108, 40, 58, 110, 102, 16, 26, 46, 42,
    ]));
    assert!(expected_result.almost_eq(&matrix_a.times(&matrix_b)));
}

#[test]
fn test_mul_by_point() {
    let matrix = Matrix::of_size(4, 4).of(fpv(vec![
        1, 2, 3, 4, 2, 4, 4, 2, 8, 6, 4, 1, 0, 0, 0, 1,
    ]));
    let point = Point::at(fp(1), fp(2), fp(3));
    let result = matrix.mul_point(point);
    assert!(result.almost(Point::at(fp(18), fp(24), fp(33))));
}

#[test]
fn test_mul_by_vector() {
    let matrix = Matrix::of_size(4, 4).of(fpv(vec![
        1, 2, 3, 4, 2, 4, 4, 2, 8, 6, 4, 1, 0, 0, 0, 1,
    ]));
    let vector = Vector::new(fp(1), fp(2), fp(3));
    let result = matrix.mul_vector(vector);
    assert!(result.almost(Vector::new(fp(14), fp(22), fp(32))));
}

#[test]
fn test_transpose() {
    let matrix = Matrix::of_size(4, 4).of(fpv(vec![
        0, 9, 3, 0, 9, 8, 0, 8, 1, 8, 5, 3, 0, 0, 5, 8,
    ]));
    let expected_transpose = Matrix::of_size(4, 4).of(fpv(vec![
        0, 9, 1, 0, 9, 8, 8, 0, 3, 0, 5, 5, 0, 8, 3, 8,
    ]));
    assert!(expected_transpose.almost_eq(&matrix.transpose()));
}

#[test]
fn test_transpose_identity() {
    let identity = Matrix::identity(4);
    assert!(identity.almost_eq(&identity.transpose()));
}

#[test]
fn test_determinant_2x2() {
    let matrix = Matrix::of_size(2, 2).of(fpv(vec![1, 5, -3, 2]));
    assert_eq!(fp(17), matrix.determinant());
}

#[test]
fn test_submatrix_3x3() {
    let matrix = Matrix::of_size(3, 3).of(fpv(vec![1, 5, 0, -3, 2, 7, 0, 6, -3]));
    let expected_sub = Matrix::of_size(2, 2).of(fpv(vec![-3, 2, 0, 6]));
    assert!(expected_sub.almost_eq(&matrix.submatrix(0, 2)));
}

#[test]
fn test_submatrix_4x4() {
    let matrix = Matrix::of_size(4, 4).of(fpv(vec![
        -6, 1, 1, 6, -8, 5, 8, 6, -1, 0, 8, 2, -7, 1, -1, 1,
    ]));
    let expected_sub = Matrix::of_size(3, 3).of(fpv(vec![-6, 1, 6, -8, 8, 6, -7, -1, 1]));
    assert!(expected_sub.almost_eq(&matrix.submatrix(2, 1)));
}

#[test]
fn test_minor_3x3() {
    let matrix = Matrix::of_size(3, 3).of(fpv(vec![3, 5, 0, 2, -1, -7, 6, -1, 5]));
    let submatrix = matrix.submatrix(1, 0);
    assert_eq!(fp(25), submatrix.determinant());
    assert_eq!(fp(25), matrix.minor(1, 0));
}

#[test]
fn test_cofactor_3x3() {
    let matrix = Matrix::of_size(3, 3).of(fpv(vec![3, 5, 0, 2, -1, -7, 6, -1, 5]));
    assert_eq!(fp(-12), matrix.minor(0, 0));
    assert_eq!(fp(-12), matrix.cofactor(0, 0));
    assert_eq!(fp(25), matrix.minor(1, 0));
    assert_eq!(fp(-25), matrix.cofactor(1, 0));
}

#[test]
fn test_determinant_3x3() {
    let matrix = Matrix::of_size(3, 3).of(fpv(vec![1, 2, 6, -5, 8, -4, 2, 6, 4]));
    assert_eq!(fp(56), matrix.cofactor(0, 0));
    assert_eq!(fp(12), matrix.cofactor(0, 1));
    assert_eq!(fp(-46), matrix.cofactor(0, 2));
    assert_eq!(fp(-196), matrix.determinant());
}

#[test]
fn test_determinant_4x4() {
    let matrix = Matrix::of_size(4, 4).of(fpv(vec![
        -2, -8, 3, 5, -3, 1, 7, 3, 1, 2, -9, 6, -6, 7, 7, -9,
    ]));
    assert_eq!(fp(690), matrix.cofactor(0, 0));
    assert_eq!(fp(447), matrix.cofactor(0, 1));
    assert_eq!(fp(210), matrix.cofactor(0, 2));
    assert_eq!(fp(51), matrix.cofactor(0, 3));
    assert_eq!(fp(-4071), matrix.determinant());
}

#[test]
fn test_invertable() {
    let matrix = Matrix::of_size(4, 4).of(fpv(vec![
        6, 4, 4, 4, 5, 5, 7, 6, 4, -9, 3, -7, 9, 1, 7, -6,
    ]));
    assert_eq!(fp(-2120), matrix.determinant());
    assert!(matrix.invertible());
}

#[test]
fn test_non_invertible() {
    let matrix = Matrix::of_size(4, 4).of(fpv(vec![
        -4, 2, -2, -3, 9, 6, 2, 6, 0, -5, 1, -5, 0, 0, 0, 0,
    ]));
    assert_eq!(0, matrix.determinant());
    assert!(!matrix.invertible());
}

#[test]
fn test_inverse() {
    let matrix = Matrix::of_size(4, 4).of(fpv(vec![
        -5, 2, 6, -8, 1, -5, 1, 8, 7, 7, -6, -7, 1, -3, 7, 4,
    ]));
    let inverse = matrix.inverse().unwrap();
    assert_eq!(fp(532), matrix.determinant());
    assert_eq!(fp(-160), matrix.cofactor(2, 3));
    assert!(approx(fpf(-160.0 / 532.0), inverse.get(3, 2), 20));
    assert_eq!(fp(105), matrix.cofactor(3, 2));
    assert!(approx(fpf(105.0 / 532.0), inverse.get(2, 3), 20));
    let expected_inverse = Matrix::of_size(4, 4).of(vec![
        fpf(0.21805),
        fpf(0.45113),
        fpf(0.24060),
        fpf(-0.04511),
        fpf(-0.80827),
        fpf(-1.45677),
        fpf(-0.44361),
        fpf(0.52068),
        fpf(-0.07895),
        fpf(-0.22368),
        fpf(-0.05263),
        fpf(0.19737),
        fpf(-0.52256),
        fpf(-0.81391),
        fpf(-0.30075),
        fpf(0.30639),
    ]);
    assert!(expected_inverse.almost_eq(&inverse));
}

#[test]
fn test_another_inverse() {
    let matrix = Matrix::of_size(4, 4).of(fpv(vec![
        8, -5, 9, 2, 7, 5, 6, 1, -6, 0, 9, 6, -3, 0, -9, -4,
    ]));
    let expected_inverse = Matrix::of_size(4, 4).of(vec![
        fpf(-0.15385),
        fpf(-0.15385),
        fpf(-0.28205),
        fpf(-0.53846),
        fpf(-0.07692),
        fpf(0.12308),
        fpf(0.02564),
        fpf(0.03077),
        fpf(0.35897),
        fpf(0.35897),
        fpf(0.43590),
        fpf(0.92308),
        fpf(-0.69231),
        fpf(-0.69231),
        fpf(-0.76923),
        fpf(-1.92308),
    ]);
    assert!(expected_inverse.almost_eq(&matrix.inverse().unwrap()));
}

#[test]
fn test_inverse_three() {
    let matrix = Matrix::of_size(4, 4).of(fpv(vec![
        9, 3, 0, 9, -5, -2, -6, -3, -4, 9, 6, 4, -7, 6, 6, 2,
    ]));
    let expected_inverse = Matrix::of_size(4, 4).of(vec![
        fpf(-0.04074),
        fpf(-0.07778),
        fpf(0.14444),
        fpf(-0.22222),
        fpf(-0.07778),
        fpf(0.03333),
        fpf(0.36667),
        fpf(-0.33333),
        fpf(-0.02901),
        fpf(-0.14630),
        fpf(-0.10926),
        fpf(0.12963),
        fpf(0.17778),
        fpf(0.06667),
        fpf(-0.26667),
        fpf(0.33333),
    ]);
    assert!(expected_inverse.almost_eq(&matrix.inverse().unwrap()));
}

#[test]
fn test_multiple_product_by_inverse() {
    let matrix_a = Matrix::of_size(4, 4).of(fpv(vec![
        3, -9, 7, 3, 3, -8, 2, -9, -4, 4, 4, 1, -6, 5, -1, 1,
    ]));
    let matrix_b = Matrix::of_size(4, 4).of(fpv(vec![
        8, 2, 2, 2, 3, -1, 7, 0, 7, 0, 5, 4, 6, -2, 0, 5,
    ]));
    let matrix_c = matrix_a.times(&matrix_b);
    let recovered = matrix_c.times(&matrix_b.inverse().unwrap());
    for i in 0..4 {
        for j in 0..4 {
            assert!(approx(matrix_a.get(i, j), recovered.get(i, j), 2000));
        }
    }
}

#[test]
fn test_invert_identity() {
    let identity4 = Matrix::identity(4);
    assert!(identity4.almost_eq(&identity4.inverse().unwrap()));
}

#[test]
fn test_multiply_matrix_by_inverse() {
    let matrix = Matrix::of_size(4, 4).of(fpv(vec![
        3, -9, 7, 3, 3, -8, 2, -9, -4, 4, 4, 1, -6, 5, -1, 1,
    ]));
    let product = matrix.times(&matrix.inverse().unwrap());
    let identity = Matrix::identity(4);
    for i in 0..4 {
        for j in 0..4 {
            assert!(approx(identity.get(i, j), product.get(i, j), 100));
        }
    }
}

#[test]
fn test_transpose_of_inverse_equals_inverse_of_transpose() {
    let matrix = Matrix::of_size(4, 4).of(fpv(vec![
        3, -9, 7, 3, 3, -8, 2, -9, -4, 4, 4, 1, -6, 5, -1, 1,
    ]));
    let one = matrix.transpose().inverse().unwrap();
    let two = matrix.inverse().unwrap().transpose();
    for i in 0..4 {
        for j in 0..4 {
            assert!(approx(one.get(i, j), two.get(i, j), 20));
        }
    }
}
