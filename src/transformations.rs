//! Homogeneous embedding, translations, and skew-symmetric matrices with
//! their inverse, the vex operator.
use vstd::prelude::*;

use crate::algebra::fits;
use crate::matrix2x2::Matrix2x2;
use crate::matrix3x3::Matrix3x3;
use crate::matrix4x4::Matrix4x4;
use crate::vector3::Vector3;
use crate::vector6::Vector6;

verus! {

/// `r` in the top-left block of a 4 x 4 matrix, 1 in the bottom-right
/// corner, zero elsewhere.
pub open spec fn homogeneous(r: Seq<Seq<int>>) -> Seq<Seq<int>> {
    Seq::new(
        4,
        |i: int|
            Seq::new(
                4,
                |j: int|
                    if i < 3 && j < 3 {
                        r[i][j]
                    } else if i == 3 && j == 3 {
                        1
                    } else {
                        0
                    },
            ),
    )
}

/// The cross-product matrix of `v`: `skew3(v) * u == v x u`.
pub open spec fn skew3(v: Seq<int>) -> Seq<Seq<int>> {
    seq![seq![0, -v[2], v[1]], seq![v[2], 0, -v[0]], seq![-v[1], v[0], 0]]
}

pub open spec fn skew2(k: int) -> Seq<Seq<int>> {
    seq![seq![0, -k], seq![k, 0]]
}

/// Half of `x`, rounded toward zero.
pub open spec fn half(x: int) -> int {
    if x >= 0 {
        x / 2
    } else {
        -((-x) / 2)
    }
}

/// Embeds the rotation `r` in a homogeneous transform with no translation.
pub fn rot2trans(r: &Matrix3x3) -> (res: Matrix4x4)
    ensures
        res@ == homogeneous(r@),
{
    let mut result = [[0i64; 4]; 4];
    let mut row: usize = 0;
    while row < 3
        invariant
            row <= 3,
            forall|i: int, j: int|
                0 <= i < 4 && 0 <= j < 4 ==> result[i][j] == (if i < row && j < 3 {
                    r.0[i][j]
                } else {
                    0i64
                }),
        decreases 3 - row,
    {
        let mut column: usize = 0;
        while column < 3
            invariant
                row < 3,
                column <= 3,
                forall|i: int, j: int|
                    0 <= i < 4 && 0 <= j < 4 ==> result[i][j] == (if (i < row && j < 3) || (i
                        == row && j < column) {
                        r.0[i][j]
                    } else {
                        0i64
                    }),
            decreases 3 - column,
        {
            result[row][column] = r.0[row][column];
            column += 1;
        }
        row += 1;
    }
    result[3][3] = 1;
    let res = Matrix4x4(result);
    assert(res@ =~~= homogeneous(r@));
    res
}

/// The skew-symmetric matrix of `v`, whose product with `u` is `v x u`.
pub fn skew_from_vec(v: Vector3) -> (r: Matrix3x3)
    requires
        forall|i: int| 0 <= i < 3 ==> fits(-v@[i]),
    ensures
        r@ == skew3(v@),
{
    assert(fits(-v@[0]) && fits(-v@[1]) && fits(-v@[2]));
    let r = Matrix3x3([[0, -v.0[2], v.0[1]], [v.0[2], 0, -v.0[0]], [-v.0[1], v.0[0], 0]]);
    assert(r@ =~~= skew3(v@));
    r
}

/// The 2-D analogue of `skew_from_vec`: `[[0, -k], [k, 0]]`.
pub fn skew_scalar(number: i64) -> (r: Matrix2x2)
    requires
        fits(-number),
    ensures
        r@ == skew2(number as int),
{
    let r = Matrix2x2([[0, -number], [number, 0]]);
    assert(r@ =~~= skew2(number as int));
    r
}

/// The augmented skew-symmetric matrix of a planar twist `(vx, vy, w)`.
pub fn skew_v3(v: Vector3) -> (r: Matrix3x3)
    requires
        fits(-v@[2]),
    ensures
        r@ == seq![seq![0, -v@[2], v@[0]], seq![v@[2], 0, v@[1]], seq![0int, 0, 0]],
{
    let r = Matrix3x3([[0, -v.0[2], v.0[0]], [v.0[2], 0, v.0[1]], [0, 0, 0]]);
    assert(r@ =~~= seq![seq![0, -v@[2], v@[0]], seq![v@[2], 0, v@[1]], seq![0int, 0, 0]]);
    r
}

/// The augmented skew-symmetric matrix of a twist `(v, w)`: the skew matrix
/// of `w` in the top-left block and `v` in the last column.
pub fn skew_v6(v: Vector6) -> (r: Matrix4x4)
    requires
        forall|i: int| 3 <= i < 6 ==> fits(-v@[i]),
    ensures
        r@ == seq![
            seq![0, -v@[5], v@[4], v@[0]],
            seq![v@[5], 0, -v@[3], v@[1]],
            seq![-v@[4], v@[3], 0, v@[2]],
            seq![0int, 0, 0, 0],
        ],
{
    assert(fits(-v@[3]) && fits(-v@[4]) && fits(-v@[5]));
    let r = Matrix4x4(
        [
            [0, -v.0[5], v.0[4], v.0[0]],
            [v.0[5], 0, -v.0[3], v.0[1]],
            [-v.0[4], v.0[3], 0, v.0[2]],
            [0, 0, 0, 0],
        ],
    );
    assert(r@ =~~= seq![
        seq![0, -v@[5], v@[4], v@[0]],
        seq![v@[5], 0, -v@[3], v@[1]],
        seq![-v@[4], v@[3], 0, v@[2]],
        seq![0int, 0, 0, 0],
    ]);
    r
}

/// The scalar of a 2 x 2 skew-symmetric matrix: half of `m[1][0] - m[0][1]`,
/// rounded toward zero.
pub fn vex_m22(m: Matrix2x2) -> (r: i64)
    requires
        fits(m@[1][0] - m@[0][1]),
    ensures
        r == half(m@[1][0] - m@[0][1]),
{
    let d = m.0[1][0] - m.0[0][1];
    d / 2
}

/// The vector of a 3 x 3 skew-symmetric matrix: component `k` is half of the
/// difference of the two entries that `skew_from_vec` fills with it.
pub fn vex_m33(m: Matrix3x3) -> (r: Vector3)
    requires
        fits(m@[2][1] - m@[1][2]),
        fits(m@[0][2] - m@[2][0]),
        fits(m@[1][0] - m@[0][1]),
    ensures
        r@ == seq![
            half(m@[2][1] - m@[1][2]),
            half(m@[0][2] - m@[2][0]),
            half(m@[1][0] - m@[0][1]),
        ],
{
    let r = Vector3([(m.0[2][1] - m.0[1][2]) / 2, (m.0[0][2] - m.0[2][0]) / 2, (m.0[1][0] - m.0[0][1]) / 2]);
    assert(r@ =~= seq![
        half(m@[2][1] - m@[1][2]),
        half(m@[0][2] - m@[2][0]),
        half(m@[1][0] - m@[0][1]),
    ]);
    r
}

/// A pure planar translation by `(x, y)` as a homogeneous 3 x 3 pose.
pub fn translation(x: i64, y: i64) -> (r: Matrix3x3)
    ensures
        r@ == seq![seq![1, 0, x as int], seq![0, 1, y as int], seq![0int, 0, 1]],
{
    let r = Matrix3x3([[1, 0, x], [0, 1, y], [0, 0, 1]]);
    assert(r@ =~~= seq![seq![1, 0, x as int], seq![0, 1, y as int], seq![0int, 0, 1]]);
    r
}

} // verus!
