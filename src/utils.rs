//! Checks on matrices.
use vstd::prelude::*;

use crate::algebra::{bounded, det, lemma_mat_mul_bounded, mat_mul};
use crate::linear_algebra::LinearAlgebra;
use crate::matrix3x3::Matrix3x3;

verus! {

/// Entries in `[-2^9, 2^9]` keep `r * r` within the determinant bound of a
/// 3 x 3 matrix.
pub const ROTATION_LIMIT: i64 = 512;

/// Does `r` behave as a rotation: are the determinants of `r` and of `r * r`
/// both 1?
pub fn is_rotation(r: Matrix3x3) -> (b: bool)
    requires
        bounded(r@, ROTATION_LIMIT as int),
    ensures
        b == (det(r@) == 1 && det(mat_mul(r@, r@)) == 1),
{
    let r2 = r.mul(r);
    proof {
        lemma_mat_mul_bounded(r@, r@, 3, ROTATION_LIMIT as int);
    }
    r.det() == 1 && r2.det() == 1
}

} // verus!
