use robotics::matrix2x2::Matrix2x2;
use robotics::matrix3x3::Matrix3x3;
use robotics::matrix4x4::Matrix4x4;
use robotics::matrix5x5::Matrix5x5;
use robotics::vector2::Vector2;
use robotics::vector3::Vector3;
use robotics::vector4::Vector4;
use robotics::vector5::Vector5;
use robotics::vector6::Vector6;

#[test]
fn vector_add_zeros() {
    let v = Vector3::new([1, -2, 3]);
    assert_eq!(v.add(Vector3::zeros()), v);
    let w = Vector6::new([1, 2, 3, 4, 5, 6]);
    assert_eq!(w.add(Vector6::zeros()), w);
    assert_eq!(w.add(w), Vector6::new([2, 4, 6, 8, 10, 12]));
}

#[test]
fn vector_dot_and_norm() {
    let v = Vector2::new([3, 4]);
    assert_eq!(v.dot(v), 25);
    assert_eq!(v.norm2(), 5);
    let u = Vector3::new([1, 2, 3]);
    assert_eq!(u.dot(Vector3::new([4, 5, 6])), 32);
    // sqrt(14) = 3.74...
    assert_eq!(u.norm2(), 3);
    assert_eq!(Vector4::new([1, 1, 1, 1]).norm2(), 2);
    assert_eq!(Vector5::new([0, 0, 0, 0, 7]).norm2(), 7);
    assert_eq!(Vector6::new([1, 1, 1, 1, 1, 1]).norm2(), 2);
}

#[test]
fn vector_matrix_products() {
    let m = Matrix2x2::new([[1, 2], [3, 4]]);
    let v = Vector2::new([5, 6]);
    // row vector: [5 * 1 + 6 * 3, 5 * 2 + 6 * 4]
    assert_eq!(v.mul_matrix(m), Vector2::new([23, 34]));
    // column vector: [1 * 5 + 2 * 6, 3 * 5 + 4 * 6]
    assert_eq!(m.mul_vector(v), Vector2::new([17, 39]));
}

#[test]
fn vector_matrix_associativity() {
    let a = Matrix3x3::new([[1, 2, 0], [0, 1, -1], [3, 0, 2]]);
    let b = Matrix3x3::new([[2, 0, 1], [1, 1, 0], [0, -2, 3]]);
    let v = Vector3::new([1, -1, 2]);
    assert_eq!(v.mul_matrix(a.mul(b)), v.mul_matrix(a).mul_matrix(b));
    assert_eq!(a.mul(b).mul_vector(v), a.mul_vector(b.mul_vector(v)));
    let a4 = Matrix4x4::identity().mul_scalar(2);
    let v4 = Vector4::new([1, 2, 3, 4]);
    assert_eq!(v4.mul_matrix(a4), Vector4::new([2, 4, 6, 8]));
    let a5 = Matrix5x5::identity();
    let v5 = Vector5::new([1, 2, 3, 4, 5]);
    assert_eq!(v5.mul_matrix(a5), v5);
    assert_eq!(a5.mul_vector(v5), v5);
}
