use robotics::errors::LinAlgebraError;
use robotics::linear_algebra::LinearAlgebra;
use robotics::matrix2x2::Matrix2x2;
use robotics::matrix3x3::Matrix3x3;
use robotics::matrix4x4::Matrix4x4;
use robotics::matrix5x5::Matrix5x5;
use robotics::matrix6x6::Matrix6x6;
use robotics::vector6::Vector6;

fn m4_sample() -> Matrix4x4 {
    Matrix4x4::new([
        [1, 1, 1, -1],
        [1, 1, -1, 1],
        [1, -1, 1, 1],
        [-1, 1, 1, 1],
    ])
}

fn m5_sample() -> Matrix5x5 {
    Matrix5x5::new([
        [10, 1, 7, 1, 5],
        [2, 4, 8, 3, 2],
        [5, 1, 2, 9, 10],
        [6, 9, 9, 7, 3],
        [1, 8, 8, 10, 5],
    ])
}

#[test]
fn det_2x2() {
    let m = Matrix2x2::new([[1, 2], [3, 4]]);
    assert_eq!(m.det(), -2);
}

#[test]
fn det_3x3() {
    let m = Matrix3x3::new([[1, 0, 3], [2, 1, 6], [1, 0, 9]]);
    assert_eq!(m.det(), 6);
    let m = Matrix3x3::new([[2, -3, 1], [2, 0, -1], [1, 4, 5]]);
    assert_eq!(m.det(), 49);
}

#[test]
fn det_4x4() {
    assert_eq!(m4_sample().det(), -16);
    assert_eq!(Matrix4x4::identity().det(), 1);
}

#[test]
fn det_5x5() {
    assert_eq!(m5_sample().det(), 50);
    assert_eq!(Matrix5x5::identity().det(), 1);
}

#[test]
fn inverse_3x3_worked_example() {
    let m = Matrix3x3::new([[1, 0, 3], [2, 1, 6], [1, 0, 9]]);
    let (adj, det) = m.inverse().unwrap();
    assert_eq!(det, 6);
    let expected = [[1.5, 0.0, -0.5], [-2.0, 1.0, 0.0], [-1.0 / 6.0, 0.0, 1.0 / 6.0]];
    for i in 0..3 {
        for j in 0..3 {
            let got = adj.0[i][j] as f64 / det as f64;
            assert!((got - expected[i][j]).abs() < 1e-5);
        }
    }
}

#[test]
fn inverse_2x2() {
    let m = Matrix2x2::new([[4, 7], [2, 6]]);
    let (adj, det) = m.inverse().unwrap();
    assert_eq!(det, 10);
    assert_eq!(adj, Matrix2x2::new([[6, -7], [-2, 4]]));
    assert_eq!(m.mul(adj), Matrix2x2::identity().mul_scalar(det));
    assert_eq!(adj.mul(m), Matrix2x2::identity().mul_scalar(det));
}

#[test]
fn inverse_round_trip_4x4() {
    let m = m4_sample();
    let (adj, det) = m.inverse().unwrap();
    assert_eq!(det, -16);
    assert_eq!(m.mul(adj), Matrix4x4::identity().mul_scalar(det));
    assert_eq!(adj.mul(m), Matrix4x4::identity().mul_scalar(det));
}

#[test]
fn inverse_round_trip_5x5() {
    let m = m5_sample();
    let (adj, det) = m.inverse().unwrap();
    assert_eq!(det, 50);
    assert_eq!(m.mul(adj), Matrix5x5::identity().mul_scalar(det));
    assert_eq!(adj.mul(m), Matrix5x5::identity().mul_scalar(det));
}

#[test]
fn inverse_singular_4x4_identical_rows() {
    let m = Matrix4x4::new([
        [1, 2, 3, 4],
        [5, 6, 7, 8],
        [1, 2, 3, 4],
        [9, 10, 11, 12],
    ]);
    assert_eq!(m.det(), 0);
    assert_eq!(m.inverse(), Err(LinAlgebraError::DeterminantZero));
}

#[test]
fn inverse_singular_small() {
    let m2 = Matrix2x2::new([[1, 2], [2, 4]]);
    assert_eq!(m2.inverse(), Err(LinAlgebraError::DeterminantZero));
    let m3 = Matrix3x3::zeros();
    assert_eq!(m3.inverse(), Err(LinAlgebraError::DeterminantZero));
    let m5 = Matrix5x5::zeros();
    assert_eq!(m5.inverse(), Err(LinAlgebraError::DeterminantZero));
}

#[test]
fn transpose_involution() {
    let m = Matrix3x3::new([[1, 2, 3], [4, 5, 6], [7, 8, 9]]);
    let t = m.transpose();
    assert_eq!(t, Matrix3x3::new([[1, 4, 7], [2, 5, 8], [3, 6, 9]]));
    assert_eq!(t.transpose(), m);
    let m4 = m4_sample();
    assert_eq!(m4.transpose().transpose(), m4);
    let m5 = m5_sample();
    assert_eq!(m5.transpose().transpose(), m5);
    assert_eq!(m5.transpose().0[0][1], 2);
}

#[test]
fn additive_and_multiplicative_identity() {
    let m = Matrix3x3::new([[1, 2, 3], [4, 5, 6], [7, 8, 9]]);
    assert_eq!(m.add(Matrix3x3::zeros()), m);
    assert_eq!(m.mul(Matrix3x3::identity()), m);
    assert_eq!(Matrix3x3::identity().mul(m), m);
    let m5 = m5_sample();
    assert_eq!(m5.add(Matrix5x5::zeros()), m5);
    assert_eq!(m5.mul(Matrix5x5::identity()), m5);
    assert_eq!(Matrix5x5::identity().mul(m5), m5);
}

#[test]
fn add_mul_scalar_and_product() {
    let a = Matrix2x2::new([[1, 2], [3, 4]]);
    let b = Matrix2x2::new([[5, 6], [7, 8]]);
    assert_eq!(a.add(b), Matrix2x2::new([[6, 8], [10, 12]]));
    assert_eq!(a.mul(b), Matrix2x2::new([[19, 22], [43, 50]]));
    assert_eq!(a.mul_scalar(3), Matrix2x2::new([[3, 6], [9, 12]]));
}

#[test]
fn trace_and_norm() {
    let m = Matrix3x3::new([[1, 2, 3], [4, 5, 6], [7, 8, 9]]);
    assert_eq!(m.trace(), 15);
    // sqrt(285) = 16.88...
    assert_eq!(m.norm2(), 16);
    let m2 = Matrix2x2::new([[3, 0], [0, 4]]);
    assert_eq!(m2.norm2(), 5);
    assert_eq!(m4_sample().trace(), 4);
    assert_eq!(m4_sample().norm2(), 4);
    assert_eq!(Matrix5x5::identity().trace(), 5);
    assert_eq!(Matrix5x5::identity().norm2(), 2);
}

#[test]
fn shape_rows_cols() {
    let m = Matrix3x3::zeros();
    assert_eq!(m.rows(), 3);
    assert_eq!(m.cols(), 3);
    assert_eq!(LinearAlgebra::shape(&m), (3, 3));
    assert_eq!(Matrix5x5::zeros().rows(), 5);
    assert_eq!(Matrix4x4::zeros().cols(), 4);
}

#[test]
fn flatten_row_major() {
    let m = Matrix2x2::new([[1, 2], [3, 4]]);
    assert_eq!(m.as_vec(), vec![1, 2, 3, 4]);
    let m3 = Matrix3x3::new([[1, 2, 3], [4, 5, 6], [7, 8, 9]]);
    assert_eq!(m3.as_vec(), vec![1, 2, 3, 4, 5, 6, 7, 8, 9]);
    let v = m4_sample().convert2vector();
    assert_eq!(v[3], -1);
    assert_eq!(v[12], -1);
    assert_eq!(m5_sample().as_vec()[24], 5);
}

#[test]
fn submatrix_deletes_row_and_column() {
    let m = Matrix4x4::new([
        [1, 2, 3, 4],
        [5, 6, 7, 8],
        [9, 10, 11, 12],
        [13, 14, 15, 16],
    ]);
    assert_eq!(
        m.get_submatrix((1, 2)),
        Matrix3x3::new([[1, 2, 4], [9, 10, 12], [13, 14, 16]])
    );
    let s = m5_sample().get_submatrix((0, 0));
    assert_eq!(s, Matrix4x4::new([[4, 8, 3, 2], [1, 2, 9, 10], [9, 9, 7, 3], [8, 8, 10, 5]]));
}

#[test]
fn error_description() {
    assert_eq!(
        LinAlgebraError::DeterminantZero.description(),
        "the matrix is not invertible"
    );
}

#[test]
fn det_and_inverse_6x6() {
    let m = Matrix6x6::new([
        [2, 0, 0, 0, 0, 1],
        [0, 3, 0, 0, 1, 0],
        [0, 0, 1, 1, 0, 0],
        [0, 0, 1, 2, 0, 0],
        [0, 1, 0, 0, 1, 0],
        [1, 0, 0, 0, 0, 1],
    ]);
    assert_eq!(m.det(), 2);
    let (adj, det) = m.inverse().unwrap();
    assert_eq!(det, 2);
    assert_eq!(m.mul(adj), Matrix6x6::identity().mul_scalar(det));
    assert_eq!(adj.mul(m), Matrix6x6::identity().mul_scalar(det));
    assert_eq!(m.transpose().transpose(), m);
    assert_eq!(m.trace(), 10);
    assert_eq!(m.get_submatrix((5, 5)).det(), 4);
    let v = Vector6::new([1, 0, 0, 0, 0, 0]);
    assert_eq!(v.mul_matrix(m), Vector6::new([2, 0, 0, 0, 0, 1]));
}

#[test]
fn zero_checks_and_conversions() {
    assert!(Matrix3x3::zeros().is_zero());
    assert!(!Matrix3x3::identity().is_zero());
    assert!(Matrix6x6::zeros().is_zero());
    assert!(!Matrix6x6::identity().is_zero());
    let m: Matrix2x2 = Matrix2x2::from([[1, 2], [3, 4]]);
    assert_eq!(m, Matrix2x2::new([[1, 2], [3, 4]]));
    let m4: Matrix4x4 = [[0; 4]; 4].into();
    assert!(m4.is_zero());
    assert!(Vector6::zeros().is_zero());
    assert!(!Vector6::new([0, 0, 0, 0, 0, 1]).is_zero());
    let v: Vector6 = Vector6::from([1, 2, 3, 4, 5, 6]);
    assert_eq!(v.0[5], 6);
}
