use robotics::matrix2x2::Matrix2x2;
use robotics::matrix3x3::Matrix3x3;
use robotics::matrix4x4::Matrix4x4;
use robotics::transformations::{
    rot2trans, skew_from_vec, skew_scalar, skew_v3, skew_v6, translation, vex_m22, vex_m33,
};
use robotics::utils::is_rotation;
use robotics::vector3::Vector3;
use robotics::vector6::Vector6;

#[test]
fn rot2trans_of_identity_is_identity() {
    let rot = Matrix3x3::identity();
    assert_eq!(rot2trans(&rot), Matrix4x4::identity());
}

#[test]
fn rot2trans_copies_block() {
    // a quarter turn about x
    let rot = Matrix3x3::new([[1, 0, 0], [0, 0, -1], [0, 1, 0]]);
    let t = rot2trans(&rot);
    assert_eq!(
        t,
        Matrix4x4::new([[1, 0, 0, 0], [0, 0, -1, 0], [0, 1, 0, 0], [0, 0, 0, 1]])
    );
}

#[test]
fn rotation_checks() {
    assert!(is_rotation(Matrix3x3::identity()));
    let quarter_x = Matrix3x3::new([[1, 0, 0], [0, 0, -1], [0, 1, 0]]);
    assert!(is_rotation(quarter_x));
    let quarter_z = Matrix3x3::new([[0, -1, 0], [1, 0, 0], [0, 0, 1]]);
    assert!(is_rotation(quarter_z));
    // a reflection has determinant -1
    let reflection = Matrix3x3::new([[-1, 0, 0], [0, 1, 0], [0, 0, 1]]);
    assert!(!is_rotation(reflection));
    assert!(!is_rotation(Matrix3x3::identity().mul_scalar(2)));
}

#[test]
fn skew_and_vex_round_trip() {
    let v = Vector3::new([1, 2, 3]);
    let s = skew_from_vec(v);
    assert_eq!(s, Matrix3x3::new([[0, -3, 2], [3, 0, -1], [-2, 1, 0]]));
    assert_eq!(vex_m33(s), v);
    let k = skew_scalar(7);
    assert_eq!(k, Matrix2x2::new([[0, -7], [7, 0]]));
    assert_eq!(vex_m22(k), 7);
    assert_eq!(vex_m22(Matrix2x2::new([[0, 2], [-3, 0]])), -2);
}

#[test]
fn augmented_skew_matrices() {
    let v = Vector3::new([1, 2, 3]);
    assert_eq!(skew_v3(v), Matrix3x3::new([[0, -3, 1], [3, 0, 2], [0, 0, 0]]));
    let w = Vector6::new([1, 2, 3, 4, 5, 6]);
    assert_eq!(
        skew_v6(w),
        Matrix4x4::new([[0, -6, 5, 1], [6, 0, -4, 2], [-5, 4, 0, 3], [0, 0, 0, 0]])
    );
}

#[test]
fn translation_pose() {
    assert_eq!(
        translation(3, -4),
        Matrix3x3::new([[1, 0, 3], [0, 1, -4], [0, 0, 1]])
    );
}
