use raytracer::color::Color;
use raytracer::error::TraceError;
use raytracer::light::PointLight;
use raytracer::matrix::{Axis, Matrix};
use raytracer::ray::Ray;
use raytracer::scalar::Scalar;
use raytracer::tuple::{Position, Tuple, TupleKind};

fn s(x: f64) -> Scalar {
    Scalar(x.to_bits())
}

fn val(x: Scalar) -> f64 {
    f64::from_bits(x.0)
}

fn matrix(rows: &[&[f64]]) -> Matrix {
    Matrix::from_rows(rows.iter().map(|r| r.iter().map(|x| s(*x)).collect()).collect()).unwrap()
}

fn entries(m: &Matrix) -> Vec<Vec<f64>> {
    (0..m.num_rows())
        .map(|r| (0..m.num_cols()).map(|c| val(m.get(r, c))).collect())
        .collect()
}

#[test]
fn point_creates_tuples_with_w1() {
    let tuple = Tuple::new(TupleKind::Point, s(4.2), s(-3.8), s(23.7));
    assert_eq!(val(tuple.w), 1.0)
}

#[test]
fn point_creates_tuples_with_w0() {
    let tuple = Tuple::new(TupleKind::Vector, s(4.2), s(-3.8), s(23.7));
    assert_eq!(val(tuple.w), 0.0)
}

#[test]
fn negating_tuple() {
    let t = Tuple::new(TupleKind::Vector, s(-1.0), s(45.0), s(32.0)).neg();
    assert_eq!(val(t.x), 1.0);
    assert_eq!(val(t.y), -45.0);
    assert_eq!(val(t.z), -32.0);
    assert!(t.w.is_zero());
}

#[test]
fn tuple_components_by_position() {
    let t = Tuple::from([s(1.0), s(2.0), s(3.0), s(4.0)]);
    assert_eq!(val(t.index(Position::X)), 1.0);
    assert_eq!(val(t.index(Position::Y)), 2.0);
    assert_eq!(val(t.index(Position::Z)), 3.0);
    assert_eq!(val(t.index(Position::Kind)), 4.0);
    assert_eq!(Tuple::point_origin(), Tuple::new_point(s(0.0), s(0.0), s(0.0)));
}

#[test]
fn vector_operations_refuse_points() {
    let v = Tuple::new_vec(s(1.0), s(2.0), s(3.0));
    let p = Tuple::new_point(s(1.0), s(2.0), s(3.0));
    assert_eq!(v.vector_operands(&v), Ok(()));
    assert_eq!(v.vector_operands(&p), Err(TraceError::InvalidOperand));
    assert_eq!(p.vector_operands(&v), Err(TraceError::InvalidOperand));
    let negative_zero_w = Tuple::from([s(1.0), s(2.0), s(3.0), s(-0.0)]);
    assert_eq!(negative_zero_w.vector_operands(&v), Ok(()));
}

#[test]
fn scalar_comparisons_follow_ieee() {
    assert!(s(1.0).lt(s(2.0)));
    assert!(s(-2.0).lt(s(-1.0)));
    assert!(s(-1.0).lt(s(0.0)));
    assert!(!s(0.0).lt(s(-0.0)));
    assert!(s(-0.0).le(s(0.0)) && s(0.0).le(s(-0.0)));
    assert!(!s(f64::NAN).le(s(f64::NAN)));
    assert!(!s(f64::NAN).lt(s(1.0)) && !s(1.0).lt(s(f64::NAN)));
    assert!(s(f64::NEG_INFINITY).lt(s(-1e300)));
    assert!(s(1e300).lt(s(f64::INFINITY)));
    assert!(s(f64::NAN).is_nan() && !s(f64::INFINITY).is_nan());
    assert!(s(-0.0).total_le(s(0.0)) && !s(0.0).total_le(s(-0.0)));
    assert_eq!(val(s(2.5).neg()), -2.5);
    assert_eq!(val(s(-2.5).neg()), 2.5);
}

#[test]
fn black_and_white() {
    assert_eq!(Color::black(), Color::new(s(0.0), s(0.0), s(0.0)));
    assert_eq!(Color::white(), Color::new(s(1.0), s(1.0), s(1.0)));
}

#[test]
fn point_light_has_position_and_intensity() {
    let intensity = Color::new(s(1.0), s(1.0), s(1.0));
    let position = Tuple::new_point(s(0.0), s(0.0), s(0.0));
    let light = PointLight::new(position, intensity);
    assert_eq!(light.get_intensity(), intensity);
    assert_eq!(light.get_position(), position)
}

#[test]
fn creating_and_querying_ray() {
    let origin = Tuple::new_point(s(1.0), s(2.0), s(3.0));
    let direction = Tuple::new_vec(s(4.0), s(5.0), s(6.0));
    let ray = Ray::new(origin, direction);
    assert_eq!(ray.get_origin(), origin);
    assert_eq!(ray.get_direction(), direction)
}

#[test]
fn linear_algebra_matrix_2x2_representable() {
    let m = matrix(&[&[-3.0, 5.0], &[1.0, -2.0]]);
    assert_eq!(val(m.get(0, 0)), -3.0);
    assert_eq!(val(m.get(0, 1)), 5.0);
    assert_eq!(val(m.get(1, 0)), 1.0);
    assert_eq!(val(m.get(1, 1)), -2.0)
}

#[test]
fn matrix_matrix_2x2_representable() {
    let m = matrix(&[&[-3.0, 5.0], &[1.0, -2.0]]);
    assert_eq!(entries(&m), vec![vec![-3.0, 5.0], vec![1.0, -2.0]]);
}

#[test]
fn linear_algebra_matrix_3x3_representable() {
    let m = matrix(&[&[-3.0, 5.0, 0.0], &[1.0, -2.0, -7.0], &[0.0, 1.0, 1.0]]);
    assert_eq!(val(m.get(0, 0)), -3.0);
    assert_eq!(val(m.get(1, 1)), -2.0);
    assert_eq!(val(m.get(2, 2)), 1.0)
}

#[test]
fn matrix_matrix_3x3_representable() {
    let m = matrix(&[&[-3.0, 5.0, 0.0], &[1.0, -2.0, -7.0], &[0.0, 1.0, 1.0]]);
    assert_eq!(m.num_rows(), 3);
    assert_eq!(m.num_cols(), 3);
    assert_eq!(val(m.get(0, 0)), -3.0);
    assert_eq!(val(m.get(1, 1)), -2.0);
    assert_eq!(val(m.get(2, 2)), 1.0)
}

#[test]
fn ragged_rows_are_no_matrix() {
    let rows = vec![vec![s(1.0), s(2.0)], vec![s(3.0)]];
    assert!(Matrix::from_rows(rows).is_none());
}

fn transposing_case() {
    let m = matrix(&[
        &[0.0, 9.0, 3.0, 0.0],
        &[9.0, 8.0, 0.0, 8.0],
        &[1.0, 8.0, 5.0, 3.0],
        &[0.0, 0.0, 5.0, 8.0],
    ]);
    let transposed = matrix(&[
        &[0.0, 9.0, 1.0, 0.0],
        &[9.0, 8.0, 8.0, 0.0],
        &[3.0, 0.0, 5.0, 5.0],
        &[0.0, 8.0, 3.0, 8.0],
    ]);
    assert_eq!(m.transpose(), transposed)
}

#[test]
fn linear_algebra_transposing_a_matrix() {
    transposing_case()
}

#[test]
fn matrix_transposing_a_matrix() {
    transposing_case()
}

#[test]
fn transposing_a_non_square_matrix() {
    let m = matrix(&[&[1.0, 2.0, 3.0], &[4.0, 5.0, 6.0]]);
    assert_eq!(entries(&m.transpose()), vec![vec![1.0, 4.0], vec![2.0, 5.0], vec![3.0, 6.0]]);
}

#[test]
fn linear_algebra_transposing_identity_matrix() {
    assert_eq!(Matrix::identity_matrix(4).transpose(), Matrix::identity_matrix(4))
}

#[test]
fn matrix_transposing_identity_matrix() {
    let id = Matrix::identity_matrix(4);
    assert_eq!(
        entries(&id.transpose()),
        vec![
            vec![1.0, 0.0, 0.0, 0.0],
            vec![0.0, 1.0, 0.0, 0.0],
            vec![0.0, 0.0, 1.0, 0.0],
            vec![0.0, 0.0, 0.0, 1.0],
        ]
    )
}

#[test]
fn linear_algebra_submatrix_of_3x3_is_2x2() {
    let m = matrix(&[&[1.0, 5.0, 0.0], &[-3.0, 2.0, 7.0], &[0.0, 6.0, -3.0]]);
    let sub = matrix(&[&[-3.0, 2.0], &[0.0, 6.0]]);
    assert_eq!(m.submatrix(0, 2), sub)
}

#[test]
fn matrix_submatrix_of_3x3_is_2x2() {
    let m = matrix(&[&[1.0, 5.0, 0.0], &[-3.0, 2.0, 7.0], &[0.0, 6.0, -3.0]]);
    let sub = matrix(&[&[-3.0, 2.0], &[0.0, 6.0]]);
    assert_eq!(m.submatrix(0, 2), sub)
}

#[test]
fn submatrix_of_4x4_is_3x3() {
    let m = matrix(&[
        &[-6.0, 1.0, 1.0, 6.0],
        &[-8.0, 5.0, 8.0, 6.0],
        &[-1.0, 0.0, 8.0, 2.0],
        &[-7.0, 1.0, -1.0, 1.0],
    ]);
    let sub = matrix(&[&[-6.0, 1.0, 6.0], &[-8.0, 8.0, 6.0], &[-7.0, -1.0, 1.0]]);
    assert_eq!(m.submatrix(2, 1), sub)
}

#[test]
fn can_create_submatrix_from_10x10() {
    let m = Matrix::zero(10, 10).submatrix(1, 1);
    assert_eq!(m, Matrix::zero(9, 9))
}

#[test]
fn setting_an_entry() {
    let mut m = Matrix::zero(2, 3);
    m.set(1, 2, s(7.5));
    assert_eq!(entries(&m), vec![vec![0.0, 0.0, 0.0], vec![0.0, 0.0, 7.5]]);
}

#[test]
fn translation_layout() {
    let m = Matrix::translation_matrix(s(5.0), s(-3.0), s(2.0));
    assert_eq!(
        entries(&m),
        vec![
            vec![1.0, 0.0, 0.0, 5.0],
            vec![0.0, 1.0, 0.0, -3.0],
            vec![0.0, 0.0, 1.0, 2.0],
            vec![0.0, 0.0, 0.0, 1.0],
        ]
    );
}

#[test]
fn scaling_layout() {
    let m = Matrix::scaling_matrix(s(2.0), s(3.0), s(4.0));
    assert_eq!(
        entries(&m),
        vec![
            vec![2.0, 0.0, 0.0, 0.0],
            vec![0.0, 3.0, 0.0, 0.0],
            vec![0.0, 0.0, 4.0, 0.0],
            vec![0.0, 0.0, 0.0, 1.0],
        ]
    );
}

#[test]
fn rotation_layouts() {
    let (c, n) = (s(0.5), s(0.25));
    assert_eq!(
        entries(&Matrix::rotation_matrix(Axis::X, c, n)),
        vec![
            vec![1.0, 0.0, 0.0, 0.0],
            vec![0.0, 0.5, -0.25, 0.0],
            vec![0.0, 0.25, 0.5, 0.0],
            vec![0.0, 0.0, 0.0, 1.0],
        ]
    );
    assert_eq!(
        entries(&Matrix::rotation_matrix(Axis::Y, c, n)),
        vec![
            vec![0.5, 0.0, 0.25, 0.0],
            vec![0.0, 1.0, 0.0, 0.0],
            vec![-0.25, 0.0, 0.5, 0.0],
            vec![0.0, 0.0, 0.0, 1.0],
        ]
    );
    assert_eq!(
        entries(&Matrix::rotation_matrix(Axis::Z, c, n)),
        vec![
            vec![0.5, -0.25, 0.0, 0.0],
            vec![0.25, 0.5, 0.0, 0.0],
            vec![0.0, 0.0, 1.0, 0.0],
            vec![0.0, 0.0, 0.0, 1.0],
        ]
    );
}

#[test]
fn shearing_layout() {
    let m = Matrix::shearing_matrix(s(1.0), s(2.0), s(3.0), s(4.0), s(5.0), s(6.0));
    assert_eq!(
        entries(&m),
        vec![
            vec![1.0, 1.0, 2.0, 0.0],
            vec![3.0, 1.0, 4.0, 0.0],
            vec![5.0, 6.0, 1.0, 0.0],
            vec![0.0, 0.0, 0.0, 1.0],
        ]
    );
}
