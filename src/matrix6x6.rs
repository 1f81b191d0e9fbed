//! 6 x 6 integer matrices.
use vstd::prelude::*;

use crate::algebra::{adjugate, bounded, cofactor_sum, det, det_bound, fits, identity, lemma_det_bound, lemma_minor_shape, mat_add, mat_mul, mat_scale, mat_vec, minor, sign, sum_squares, trace, transpose, vec_bounded, zeros};
use crate::errors::LinAlgebraError;
use crate::grid::{grid_add, grid_identity, grid_is_zero, grid_minor, grid_mul, grid_scale, grid_sum_squares, grid_times_row, grid_trace, grid_transpose, grid_view, grid_zeros, lemma_mul_bound, PRODUCT_LIMIT, SQUARES_LIMIT, SUM_LIMIT};
use crate::linear_algebra::LinearAlgebra;
use crate::matrix5x5::Matrix5x5;
use crate::numeric::isqrt;
use crate::vector6::Vector6;

verus! {

/// Entries in `[-2^8, 2^8]` keep the determinant and the adjugate of a
/// 6 x 6 matrix inside `i64`.
pub const DET6_LIMIT: i64 = 256;

/// A 6 x 6 matrix of integers, stored row after row.
#[derive(Clone, Copy, Debug, PartialEq, Eq)]
pub struct Matrix6x6(pub [[i64; 6]; 6]);

impl View for Matrix6x6 {
    type V = Seq<Seq<int>>;

    open spec fn view(&self) -> Seq<Seq<int>> {
        grid_view(self.0)
    }
}

/// The determinant of a minor of a matrix within `DET6_LIMIT` lies in
/// `[-131941395333120, 131941395333120]`.
proof fn lemma_minor_det_bound()
    ensures
        det_bound(5, DET6_LIMIT as int) == 131941395333120,
{
    reveal_with_fuel(det_bound, 6);
    assert(det_bound(0, 256) == 1);
    assert(det_bound(1, 256) == 256);
    assert(det_bound(2, 256) == 131072);
    assert(det_bound(3, 256) == 100663296);
    assert(det_bound(4, 256) == 103079215104);
    assert(det_bound(5, 256) == 131941395333120);
    assert(DET6_LIMIT as int == 256);
}

impl Matrix6x6 {
    pub fn new(data_input: [[i64; 6]; 6]) -> (r: Matrix6x6)
        ensures
            r.0 == data_input,
    {
        Matrix6x6(data_input)
    }

    pub fn rows(&self) -> (r: usize)
        ensures
            r == 6,
    {
        self.0.len()
    }

    pub fn cols(&self) -> (r: usize)
        ensures
            r == 6,
    {
        self.rows()
    }

    /// The multiplicative identity.
    pub fn identity() -> (r: Matrix6x6)
        ensures
            r@ == identity(6),
    {
        Matrix6x6(grid_identity())
    }

    /// The additive identity.
    pub fn zeros() -> (r: Matrix6x6)
        ensures
            r@ == zeros(6),
    {
        Matrix6x6(grid_zeros())
    }

    /// Is every entry zero?
    pub fn is_zero(&self) -> (r: bool)
        ensures
            r == (self@ == zeros(6)),
    {
        grid_is_zero(&self.0)
    }

    /// The entries, row after row.
    pub fn as_vec(&self) -> (r: Vec<i64>)
        ensures
            r@.len() == 36,
            forall|i: int, j: int| 0 <= i < 6 && 0 <= j < 6 ==> r@[6 * i + j] == self.0[i][j],
    {
        let mut r: Vec<i64> = Vec::new();
        let mut i: usize = 0;
        while i < 6
            invariant
                i <= 6,
                r@.len() == 6 * i,
                forall|x: int, y: int| 0 <= x < i && 0 <= y < 6 ==> r@[6 * x + y] == self.0[x][y],
            decreases 6 - i,
        {
            let mut j: usize = 0;
            while j < 6
                invariant
                    i < 6,
                    j <= 6,
                    r@.len() == 6 * i + j,
                    forall|x: int, y: int|
                        0 <= x < i && 0 <= y < 6 ==> r@[6 * x + y] == self.0[x][y],
                    forall|y: int| 0 <= y < j ==> r@[6 * i + y] == self.0[i as int][y],
                decreases 6 - j,
            {
                r.push(self.0[i][j]);
                j += 1;
            }
            i += 1;
        }
        r
    }

    /// The entrywise sum.
    pub fn add(self, rhs: Matrix6x6) -> (r: Matrix6x6)
        requires
            forall|i: int, j: int| 0 <= i < 6 && 0 <= j < 6 ==> fits(self@[i][j] + rhs@[i][j]),
        ensures
            r@ == mat_add(self@, rhs@),
    {
        assert forall|i: int, j: int| 0 <= i < 6 && 0 <= j < 6 implies fits(
            grid_view(self.0)[i][j] + grid_view(rhs.0)[i][j],
        ) by {
            assert(fits(self@[i][j] + rhs@[i][j]));
        }
        Matrix6x6(grid_add(&self.0, &rhs.0))
    }

    /// Every entry times `k`.
    pub fn mul_scalar(self, k: i64) -> (r: Matrix6x6)
        requires
            forall|i: int, j: int| 0 <= i < 6 && 0 <= j < 6 ==> fits(self@[i][j] * k),
        ensures
            r@ == mat_scale(self@, k as int),
    {
        assert forall|i: int, j: int| 0 <= i < 6 && 0 <= j < 6 implies fits(
            grid_view(self.0)[i][j] * k,
        ) by {
            assert(fits(self@[i][j] * k));
        }
        Matrix6x6(grid_scale(&self.0, k))
    }

    /// The matrix product `self * rhs`.
    pub fn mul(self, rhs: Matrix6x6) -> (r: Matrix6x6)
        requires
            bounded(self@, PRODUCT_LIMIT as int),
            bounded(rhs@, PRODUCT_LIMIT as int),
        ensures
            r@ == mat_mul(self@, rhs@),
    {
        Matrix6x6(grid_mul(&self.0, &rhs.0))
    }

    /// This matrix times `v` taken as a column: component `i` is
    /// `sum_j self[i][j] * v[j]`.
    pub fn mul_vector(self, v: Vector6) -> (r: Vector6)
        requires
            bounded(self@, PRODUCT_LIMIT as int),
            vec_bounded(v@, PRODUCT_LIMIT as int),
        ensures
            r@ == mat_vec(self@, v@),
    {
        Vector6(grid_times_row(&self.0, &v.0))
    }

    /// The 5 x 5 matrix left when row `selected.0` and column
    /// `selected.1` are deleted; the other rows and columns keep their order.
    pub fn get_submatrix(&self, selected: (usize, usize)) -> (r: Matrix5x5)
        requires
            selected.0 < 6,
            selected.1 < 6,
        ensures
            r@ == minor(self@, selected.0 as int, selected.1 as int),
    {
        Matrix5x5(grid_minor(&self.0, selected.0, selected.1))
    }

    pub fn trace(&self) -> (r: i64)
        requires
            bounded(self@, SUM_LIMIT as int),
        ensures
            r == trace(self@),
    {
        grid_trace(&self.0)
    }

    pub fn transpose(&self) -> (r: Matrix6x6)
        ensures
            r@ == transpose(self@),
    {
        Matrix6x6(grid_transpose(&self.0))
    }

    /// The Frobenius norm, rounded down to an integer.
    pub fn norm2(&self) -> (r: i64)
        requires
            bounded(self@, SQUARES_LIMIT as int),
        ensures
            r >= 0,
            r * r <= sum_squares(self@) < (r + 1) * (r + 1),
    {
        isqrt(grid_sum_squares(&self.0))
    }

    /// The determinant, by cofactor expansion along the first row.
    pub fn det(&self) -> (r: i64)
        requires
            bounded(self@, DET6_LIMIT as int),
        ensures
            r == det(self@),
    {
        let mut acc: i64 = 0;
        let mut j: usize = 0;
        while j < 6
            invariant
                j <= 6,
                bounded(self@, DET6_LIMIT as int),
                acc == cofactor_sum(self@, j as int),
                -(j * 33776997205278720) <= acc <= j * 33776997205278720,
            decreases 6 - j,
        {
            let sub = self.get_submatrix((0, j));
            proof {
                lemma_minor_det_bound();
                lemma_minor_shape(self@, 6, 0, j as int, DET6_LIMIT as int);
                lemma_det_bound(sub@, 5, DET6_LIMIT as int);
            }
            let d = sub.det();
            let x = self.0[0][j];
            proof {
                assert(self@[0].len() == 6);
                assert(x == self@[0][j as int]);
                lemma_mul_bound(x as int, d as int, DET6_LIMIT as int, 131941395333120);
            }
            proof {
                let s = sign(j as int);
                assert(cofactor_sum(self@, j + 1) == cofactor_sum(self@, j as int) + s * x * d);
                assert(s == 1 ==> s * x * d == x * d) by (nonlinear_arith);
                assert(s == -1 ==> s * x * d == -(x * d)) by (nonlinear_arith);
            }
            if j % 2 == 0 {
                acc = acc + x * d;
            } else {
                acc = acc - x * d;
            }
            j += 1;
        }
        proof {
            assert(det(self@) == cofactor_sum(self@, 6));
        }
        acc
    }

    /// The inverse as a pair `(adjugate, determinant)`: the inverse is the
    /// adjugate divided by the determinant, which is never zero here. A
    /// matrix with determinant zero has no inverse.
    pub fn inverse(&self) -> (r: Result<(Matrix6x6, i64), LinAlgebraError>)
        requires
            bounded(self@, DET6_LIMIT as int),
        ensures
            match r {
                Ok((adj, d)) => {
                    &&& d == det(self@)
                    &&& d != 0
                    &&& adj@ == adjugate(self@)
                },
                Err(e) => {
                    &&& e == LinAlgebraError::DeterminantZero
                    &&& det(self@) == 0
                },
            },
    {
        let determinant = self.det();
        if determinant == 0 {
            return Err(LinAlgebraError::DeterminantZero);
        }
        let ghost a = adjugate(self@);
        let mut adj = [[0i64; 6]; 6];
        let mut i: usize = 0;
        while i < 6
            invariant
                i <= 6,
                bounded(self@, DET6_LIMIT as int),
                a == adjugate(self@),
                forall|x: int, y: int| 0 <= x < i && 0 <= y < 6 ==> adj[x][y] == a[x][y],
            decreases 6 - i,
        {
            let mut j: usize = 0;
            while j < 6
                invariant
                    i < 6,
                    j <= 6,
                    bounded(self@, DET6_LIMIT as int),
                    a == adjugate(self@),
                    forall|x: int, y: int| 0 <= x < i && 0 <= y < 6 ==> adj[x][y] == a[x][y],
                    forall|y: int| 0 <= y < j ==> adj[i as int][y] == a[i as int][y],
                decreases 6 - j,
            {
                let sub = self.get_submatrix((j, i));
                proof {
                    lemma_minor_det_bound();
                    lemma_minor_shape(self@, 6, j as int, i as int, DET6_LIMIT as int);
                    lemma_det_bound(sub@, 5, DET6_LIMIT as int);
                }
                let d = sub.det();
                proof {
                    let s = sign(j + i);
                    let dd = det(minor(self@, j as int, i as int));
                    assert(a[i as int][j as int] == s * dd);
                    assert(s == 1 ==> s * dd == dd) by (nonlinear_arith);
                    assert(s == -1 ==> s * dd == -dd) by (nonlinear_arith);
                }
                adj[i][j] = if (i + j) % 2 == 0 {
                    d
                } else {
                    -d
                };
                j += 1;
            }
            i += 1;
        }
        let res = Matrix6x6(adj);
        assert(res@ =~~= a);
        Ok((res, determinant))
    }
}

impl LinearAlgebra for Matrix6x6 {
    open spec fn entries(&self) -> Seq<Seq<int>> {
        self@
    }

    open spec fn det_limit() -> int {
        DET6_LIMIT as int
    }

    fn rows(&self) -> (r: usize) {
        Matrix6x6::rows(self)
    }

    fn cols(&self) -> (r: usize) {
        Matrix6x6::cols(self)
    }

    fn transpose(&self) -> (r: Matrix6x6) {
        Matrix6x6::transpose(self)
    }

    fn trace(&self) -> (r: i64) {
        Matrix6x6::trace(self)
    }

    fn norm2(&self) -> (r: i64) {
        Matrix6x6::norm2(self)
    }

    fn det(&self) -> (r: i64) {
        Matrix6x6::det(self)
    }

    fn inverse(&self) -> (r: Result<(Matrix6x6, i64), LinAlgebraError>) {
        Matrix6x6::inverse(self)
    }
}

impl From<[[i64; 6]; 6]> for Matrix6x6 {
    fn from(data: [[i64; 6]; 6]) -> (r: Matrix6x6) {
        Matrix6x6(data)
    }
}

impl vstd::std_specs::convert::FromSpecImpl<[[i64; 6]; 6]> for Matrix6x6 {
    open spec fn obeys_from_spec() -> bool {
        true
    }

    open spec fn from_spec(v: [[i64; 6]; 6]) -> Matrix6x6 {
        Matrix6x6(v)
    }
}

} // verus!
