//! 3 x 3 integer matrices.
use vstd::prelude::*;

use crate::algebra::{adjugate, bounded, det, fits, identity, lemma_adjugate3, lemma_det3, mat_add, mat_mul, mat_scale, mat_vec, vec_bounded, zeros};
use crate::errors::LinAlgebraError;
use crate::grid::{grid_add, grid_identity, grid_is_zero, grid_mul, grid_scale, grid_sum_squares, grid_times_row, grid_trace, grid_transpose, grid_view, grid_zeros, lemma_mul_bound, PRODUCT_LIMIT};
use crate::linear_algebra::LinearAlgebra;
use crate::numeric::isqrt;
use crate::vector3::Vector3;

verus! {

/// Entries in `[-2^20, 2^20]` keep the determinant and the adjugate of a
/// 3 x 3 matrix inside `i64`.
pub const DET3_LIMIT: i64 = 1048576;

/// A 3 x 3 matrix of integers, stored row after row.
#[derive(Clone, Copy, Debug, PartialEq, Eq)]
pub struct Matrix3x3(pub [[i64; 3]; 3]);

impl View for Matrix3x3 {
    type V = Seq<Seq<int>>;

    open spec fn view(&self) -> Seq<Seq<int>> {
        grid_view(self.0)
    }
}

impl Matrix3x3 {
    pub fn new(data_input: [[i64; 3]; 3]) -> (r: Matrix3x3)
        ensures
            r.0 == data_input,
    {
        Matrix3x3(data_input)
    }

    pub fn rows(&self) -> (r: usize)
        ensures
            r == 3,
    {
        self.0.len()
    }

    pub fn cols(&self) -> (r: usize)
        ensures
            r == 3,
    {
        self.rows()
    }

    /// The multiplicative identity.
    pub fn identity() -> (r: Matrix3x3)
        ensures
            r@ == identity(3),
    {
        Matrix3x3(grid_identity())
    }

    /// The additive identity.
    pub fn zeros() -> (r: Matrix3x3)
        ensures
            r@ == zeros(3),
    {
        Matrix3x3(grid_zeros())
    }

    /// Is every entry zero?
    pub fn is_zero(&self) -> (r: bool)
        ensures
            r == (self@ == zeros(3)),
    {
        grid_is_zero(&self.0)
    }

    /// The entries, row after row.
    pub fn as_vec(&self) -> (r: Vec<i64>)
        ensures
            r@.len() == 9,
            forall|i: int, j: int| 0 <= i < 3 && 0 <= j < 3 ==> r@[3 * i + j] == self.0[i][j],
    {
        let mut r: Vec<i64> = Vec::new();
        let mut i: usize = 0;
        while i < 3
            invariant
                i <= 3,
                r@.len() == 3 * i,
                forall|x: int, y: int| 0 <= x < i && 0 <= y < 3 ==> r@[3 * x + y] == self.0[x][y],
            decreases 3 - i,
        {
            let mut j: usize = 0;
            while j < 3
                invariant
                    i < 3,
                    j <= 3,
                    r@.len() == 3 * i + j,
                    forall|x: int, y: int|
                        0 <= x < i && 0 <= y < 3 ==> r@[3 * x + y] == self.0[x][y],
                    forall|y: int| 0 <= y < j ==> r@[3 * i + y] == self.0[i as int][y],
                decreases 3 - j,
            {
                r.push(self.0[i][j]);
                j += 1;
            }
            i += 1;
        }
        r
    }

    /// The entrywise sum.
    pub fn add(self, rhs: Matrix3x3) -> (r: Matrix3x3)
        requires
            forall|i: int, j: int| 0 <= i < 3 && 0 <= j < 3 ==> fits(self@[i][j] + rhs@[i][j]),
        ensures
            r@ == mat_add(self@, rhs@),
    {
        assert forall|i: int, j: int| 0 <= i < 3 && 0 <= j < 3 implies fits(
            grid_view(self.0)[i][j] + grid_view(rhs.0)[i][j],
        ) by {
            assert(fits(self@[i][j] + rhs@[i][j]));
        }
        Matrix3x3(grid_add(&self.0, &rhs.0))
    }

    /// Every entry times `k`.
    pub fn mul_scalar(self, k: i64) -> (r: Matrix3x3)
        requires
            forall|i: int, j: int| 0 <= i < 3 && 0 <= j < 3 ==> fits(self@[i][j] * k),
        ensures
            r@ == mat_scale(self@, k as int),
    {
        assert forall|i: int, j: int| 0 <= i < 3 && 0 <= j < 3 implies fits(
            grid_view(self.0)[i][j] * k,
        ) by {
            assert(fits(self@[i][j] * k));
        }
        Matrix3x3(grid_scale(&self.0, k))
    }

    /// The matrix product `self * rhs`.
    pub fn mul(self, rhs: Matrix3x3) -> (r: Matrix3x3)
        requires
            bounded(self@, PRODUCT_LIMIT as int),
            bounded(rhs@, PRODUCT_LIMIT as int),
        ensures
            r@ == mat_mul(self@, rhs@),
    {
        Matrix3x3(grid_mul(&self.0, &rhs.0))
    }

    /// This matrix times `v` taken as a column: component `i` is
    /// `sum_j self[i][j] * v[j]`.
    pub fn mul_vector(self, v: Vector3) -> (r: Vector3)
        requires
            bounded(self@, PRODUCT_LIMIT as int),
            vec_bounded(v@, PRODUCT_LIMIT as int),
        ensures
            r@ == mat_vec(self@, v@),
    {
        Vector3(grid_times_row(&self.0, &v.0))
    }
}

impl LinearAlgebra for Matrix3x3 {
    open spec fn entries(&self) -> Seq<Seq<int>> {
        self@
    }

    open spec fn det_limit() -> int {
        DET3_LIMIT as int
    }

    fn rows(&self) -> (r: usize) {
        Matrix3x3::rows(self)
    }

    fn cols(&self) -> (r: usize) {
        Matrix3x3::cols(self)
    }

    fn transpose(&self) -> (r: Matrix3x3) {
        Matrix3x3(grid_transpose(&self.0))
    }

    fn trace(&self) -> (r: i64) {
        grid_trace(&self.0)
    }

    fn norm2(&self) -> (r: i64) {
        isqrt(grid_sum_squares(&self.0))
    }

    fn det(&self) -> (r: i64) {
        let m = &self.0;
        proof {
            lemma_det3(self@);
            lemma_mul_bound(self@[1][1], self@[2][2], DET3_LIMIT as int, DET3_LIMIT as int);
            lemma_mul_bound(self@[1][2], self@[2][1], DET3_LIMIT as int, DET3_LIMIT as int);
            lemma_mul_bound(self@[1][0], self@[2][2], DET3_LIMIT as int, DET3_LIMIT as int);
            lemma_mul_bound(self@[1][2], self@[2][0], DET3_LIMIT as int, DET3_LIMIT as int);
            lemma_mul_bound(self@[1][0], self@[2][1], DET3_LIMIT as int, DET3_LIMIT as int);
            lemma_mul_bound(self@[1][1], self@[2][0], DET3_LIMIT as int, DET3_LIMIT as int);
        }
        let d0 = m[1][1] * m[2][2] - m[1][2] * m[2][1];
        let d1 = m[1][0] * m[2][2] - m[1][2] * m[2][0];
        let d2 = m[1][0] * m[2][1] - m[1][1] * m[2][0];
        proof {
            lemma_mul_bound(self@[0][0], d0 as int, DET3_LIMIT as int, 2199023255552);
            lemma_mul_bound(self@[0][1], d1 as int, DET3_LIMIT as int, 2199023255552);
            lemma_mul_bound(self@[0][2], d2 as int, DET3_LIMIT as int, 2199023255552);
        }
        m[0][0] * d0 - m[0][1] * d1 + m[0][2] * d2
    }

    fn inverse(&self) -> (r: Result<(Matrix3x3, i64), LinAlgebraError>) {
        let det = self.det();
        if det != 0 {
            let m = &self.0;
            proof {
                lemma_adjugate3(self@);
                lemma_mul_bound(self@[1][1], self@[2][2], DET3_LIMIT as int, DET3_LIMIT as int);
                lemma_mul_bound(self@[1][2], self@[2][1], DET3_LIMIT as int, DET3_LIMIT as int);
                lemma_mul_bound(self@[0][2], self@[2][1], DET3_LIMIT as int, DET3_LIMIT as int);
                lemma_mul_bound(self@[0][1], self@[2][2], DET3_LIMIT as int, DET3_LIMIT as int);
                lemma_mul_bound(self@[0][1], self@[1][2], DET3_LIMIT as int, DET3_LIMIT as int);
                lemma_mul_bound(self@[0][2], self@[1][1], DET3_LIMIT as int, DET3_LIMIT as int);
                lemma_mul_bound(self@[1][2], self@[2][0], DET3_LIMIT as int, DET3_LIMIT as int);
                lemma_mul_bound(self@[1][0], self@[2][2], DET3_LIMIT as int, DET3_LIMIT as int);
                lemma_mul_bound(self@[0][0], self@[2][2], DET3_LIMIT as int, DET3_LIMIT as int);
                lemma_mul_bound(self@[0][2], self@[2][0], DET3_LIMIT as int, DET3_LIMIT as int);
                lemma_mul_bound(self@[0][2], self@[1][0], DET3_LIMIT as int, DET3_LIMIT as int);
                lemma_mul_bound(self@[0][0], self@[1][2], DET3_LIMIT as int, DET3_LIMIT as int);
                lemma_mul_bound(self@[1][0], self@[2][1], DET3_LIMIT as int, DET3_LIMIT as int);
                lemma_mul_bound(self@[1][1], self@[2][0], DET3_LIMIT as int, DET3_LIMIT as int);
                lemma_mul_bound(self@[0][1], self@[2][0], DET3_LIMIT as int, DET3_LIMIT as int);
                lemma_mul_bound(self@[0][0], self@[2][1], DET3_LIMIT as int, DET3_LIMIT as int);
                lemma_mul_bound(self@[0][0], self@[1][1], DET3_LIMIT as int, DET3_LIMIT as int);
                lemma_mul_bound(self@[0][1], self@[1][0], DET3_LIMIT as int, DET3_LIMIT as int);
            }
            let adj = Matrix3x3(
                [
                    [
                        m[1][1] * m[2][2] - m[1][2] * m[2][1],
                        m[0][2] * m[2][1] - m[0][1] * m[2][2],
                        m[0][1] * m[1][2] - m[0][2] * m[1][1],
                    ],
                    [
                        m[1][2] * m[2][0] - m[1][0] * m[2][2],
                        m[0][0] * m[2][2] - m[0][2] * m[2][0],
                        m[0][2] * m[1][0] - m[0][0] * m[1][2],
                    ],
                    [
                        m[1][0] * m[2][1] - m[1][1] * m[2][0],
                        m[0][1] * m[2][0] - m[0][0] * m[2][1],
                        m[0][0] * m[1][1] - m[0][1] * m[1][0],
                    ],
                ],
            );
            proof {
                assert(adj@ =~~= adjugate(self@));
            }
            Ok((adj, det))
        } else {
            Err(LinAlgebraError::DeterminantZero)
        }
    }
}

impl From<[[i64; 3]; 3]> for Matrix3x3 {
    fn from(data: [[i64; 3]; 3]) -> (r: Matrix3x3) {
        Matrix3x3(data)
    }
}

impl vstd::std_specs::convert::FromSpecImpl<[[i64; 3]; 3]> for Matrix3x3 {
    open spec fn obeys_from_spec() -> bool {
        true
    }

    open spec fn from_spec(v: [[i64; 3]; 3]) -> Matrix3x3 {
        Matrix3x3(v)
    }
}

} // verus!
