//! 2 x 2 integer matrices.
use vstd::prelude::*;

use crate::algebra::{adjugate, bounded, det, fits, identity, lemma_adjugate2, lemma_det2, mat_add, mat_mul, mat_scale, mat_vec, vec_bounded, zeros};
use crate::errors::LinAlgebraError;
use crate::grid::{grid_add, grid_identity, grid_is_zero, grid_mul, grid_scale, grid_sum_squares, grid_times_row, grid_trace, grid_transpose, grid_view, grid_zeros, lemma_mul_bound, PRODUCT_LIMIT};
use crate::linear_algebra::LinearAlgebra;
use crate::numeric::isqrt;
use crate::vector2::Vector2;

verus! {

/// Entries in `[-2^30, 2^30]` keep the determinant and the adjugate of a
/// 2 x 2 matrix inside `i64`.
pub const DET2_LIMIT: i64 = 1073741824;

/// A 2 x 2 matrix of integers, stored row after row.
#[derive(Clone, Copy, Debug, PartialEq, Eq)]
pub struct Matrix2x2(pub [[i64; 2]; 2]);

impl View for Matrix2x2 {
    type V = Seq<Seq<int>>;

    open spec fn view(&self) -> Seq<Seq<int>> {
        grid_view(self.0)
    }
}

impl Matrix2x2 {
    pub fn new(data_input: [[i64; 2]; 2]) -> (r: Matrix2x2)
        ensures
            r.0 == data_input,
    {
        Matrix2x2(data_input)
    }

    pub fn rows(&self) -> (r: usize)
        ensures
            r == 2,
    {
        self.0.len()
    }

    pub fn cols(&self) -> (r: usize)
        ensures
            r == 2,
    {
        self.rows()
    }

    /// The multiplicative identity.
    pub fn identity() -> (r: Matrix2x2)
        ensures
            r@ == identity(2),
    {
        Matrix2x2(grid_identity())
    }

    /// The additive identity.
    pub fn zeros() -> (r: Matrix2x2)
        ensures
            r@ == zeros(2),
    {
        Matrix2x2(grid_zeros())
    }

    /// Is every entry zero?
    pub fn is_zero(&self) -> (r: bool)
        ensures
            r == (self@ == zeros(2)),
    {
        grid_is_zero(&self.0)
    }

    /// The entries, row after row.
    pub fn as_vec(&self) -> (r: Vec<i64>)
        ensures
            r@.len() == 4,
            forall|i: int, j: int| 0 <= i < 2 && 0 <= j < 2 ==> r@[2 * i + j] == self.0[i][j],
    {
        let mut r: Vec<i64> = Vec::new();
        let mut i: usize = 0;
        while i < 2
            invariant
                i <= 2,
                r@.len() == 2 * i,
                forall|x: int, y: int| 0 <= x < i && 0 <= y < 2 ==> r@[2 * x + y] == self.0[x][y],
            decreases 2 - i,
        {
            let mut j: usize = 0;
            while j < 2
                invariant
                    i < 2,
                    j <= 2,
                    r@.len() == 2 * i + j,
                    forall|x: int, y: int|
                        0 <= x < i && 0 <= y < 2 ==> r@[2 * x + y] == self.0[x][y],
                    forall|y: int| 0 <= y < j ==> r@[2 * i + y] == self.0[i as int][y],
                decreases 2 - j,
            {
                r.push(self.0[i][j]);
                j += 1;
            }
            i += 1;
        }
        r
    }

    /// The entrywise sum.
    pub fn add(self, rhs: Matrix2x2) -> (r: Matrix2x2)
        requires
            forall|i: int, j: int| 0 <= i < 2 && 0 <= j < 2 ==> fits(self@[i][j] + rhs@[i][j]),
        ensures
            r@ == mat_add(self@, rhs@),
    {
        assert forall|i: int, j: int| 0 <= i < 2 && 0 <= j < 2 implies fits(
            grid_view(self.0)[i][j] + grid_view(rhs.0)[i][j],
        ) by {
            assert(fits(self@[i][j] + rhs@[i][j]));
        }
        Matrix2x2(grid_add(&self.0, &rhs.0))
    }

    /// Every entry times `k`.
    pub fn mul_scalar(self, k: i64) -> (r: Matrix2x2)
        requires
            forall|i: int, j: int| 0 <= i < 2 && 0 <= j < 2 ==> fits(self@[i][j] * k),
        ensures
            r@ == mat_scale(self@, k as int),
    {
        assert forall|i: int, j: int| 0 <= i < 2 && 0 <= j < 2 implies fits(
            grid_view(self.0)[i][j] * k,
        ) by {
            assert(fits(self@[i][j] * k));
        }
        Matrix2x2(grid_scale(&self.0, k))
    }

    /// The matrix product `self * rhs`.
    pub fn mul(self, rhs: Matrix2x2) -> (r: Matrix2x2)
        requires
            bounded(self@, PRODUCT_LIMIT as int),
            bounded(rhs@, PRODUCT_LIMIT as int),
        ensures
            r@ == mat_mul(self@, rhs@),
    {
        Matrix2x2(grid_mul(&self.0, &rhs.0))
    }

    /// This matrix times `v` taken as a column: component `i` is
    /// `sum_j self[i][j] * v[j]`.
    pub fn mul_vector(self, v: Vector2) -> (r: Vector2)
        requires
            bounded(self@, PRODUCT_LIMIT as int),
            vec_bounded(v@, PRODUCT_LIMIT as int),
        ensures
            r@ == mat_vec(self@, v@),
    {
        Vector2(grid_times_row(&self.0, &v.0))
    }
}

impl LinearAlgebra for Matrix2x2 {
    open spec fn entries(&self) -> Seq<Seq<int>> {
        self@
    }

    open spec fn det_limit() -> int {
        DET2_LIMIT as int
    }

    fn rows(&self) -> (r: usize) {
        Matrix2x2::rows(self)
    }

    fn cols(&self) -> (r: usize) {
        Matrix2x2::cols(self)
    }

    fn transpose(&self) -> (r: Matrix2x2) {
        Matrix2x2(grid_transpose(&self.0))
    }

    fn trace(&self) -> (r: i64) {
        grid_trace(&self.0)
    }

    fn norm2(&self) -> (r: i64) {
        isqrt(grid_sum_squares(&self.0))
    }

    fn det(&self) -> (r: i64) {
        let a = self.0[0][0];
        let b = self.0[0][1];
        let c = self.0[1][0];
        let d = self.0[1][1];
        proof {
            lemma_det2(self@);
            lemma_mul_bound(a as int, d as int, DET2_LIMIT as int, DET2_LIMIT as int);
            lemma_mul_bound(b as int, c as int, DET2_LIMIT as int, DET2_LIMIT as int);
        }
        a * d - b * c
    }

    fn inverse(&self) -> (r: Result<(Matrix2x2, i64), LinAlgebraError>) {
        let det = self.det();
        if det != 0 {
            proof {
                lemma_adjugate2(self@);
            }
            let adj = Matrix2x2([[self.0[1][1], -self.0[0][1]], [-self.0[1][0], self.0[0][0]]]);
            assert(adj@ =~~= adjugate(self@));
            Ok((adj, det))
        } else {
            Err(LinAlgebraError::DeterminantZero)
        }
    }
}

impl From<[[i64; 2]; 2]> for Matrix2x2 {
    fn from(data: [[i64; 2]; 2]) -> (r: Matrix2x2) {
        Matrix2x2(data)
    }
}

impl vstd::std_specs::convert::FromSpecImpl<[[i64; 2]; 2]> for Matrix2x2 {
    open spec fn obeys_from_spec() -> bool {
        true
    }

    open spec fn from_spec(v: [[i64; 2]; 2]) -> Matrix2x2 {
        Matrix2x2(v)
    }
}

} // verus!
