//! The operations that every square matrix offers.
use vstd::prelude::*;

use crate::algebra::{adjugate, bounded, det, sum_squares, trace, transpose};
use crate::errors::LinAlgebraError;
use crate::grid::{SQUARES_LIMIT, SUM_LIMIT};

verus! {

/// Trace, determinant, transpose, Frobenius norm and inverse of a square
/// matrix, stated over its entries.
pub trait LinearAlgebra: Sized {
    /// The entries, as a square sequence of rows.
    spec fn entries(&self) -> Seq<Seq<int>>;

    /// The bound on the entries under which `det` and `inverse` stay inside
    /// `i64`.
    spec fn det_limit() -> int;

    fn rows(&self) -> (r: usize)
        ensures
            r == self.entries().len(),
    ;

    fn cols(&self) -> (r: usize)
        ensures
            r == self.entries().len(),
    ;

    fn shape(&self) -> (r: (usize, usize))
        ensures
            r.0 == self.entries().len(),
            r.1 == self.entries().len(),
    {
        (self.rows(), self.cols())
    }

    fn transpose(&self) -> (r: Self)
        ensures
            r.entries() == transpose(self.entries()),
    ;

    fn trace(&self) -> (r: i64)
        requires
            bounded(self.entries(), SUM_LIMIT as int),
        ensures
            r == trace(self.entries()),
    ;

    /// The Frobenius norm, rounded down to an integer.
    fn norm2(&self) -> (r: i64)
        requires
            bounded(self.entries(), SQUARES_LIMIT as int),
        ensures
            r >= 0,
            r * r <= sum_squares(self.entries()) < (r + 1) * (r + 1),
    ;

    fn det(&self) -> (r: i64)
        requires
            bounded(self.entries(), Self::det_limit()),
        ensures
            r == det(self.entries()),
    ;

    /// The inverse as a pair `(adjugate, determinant)`: the inverse is the
    /// adjugate divided by the determinant, which is never zero here. A
    /// matrix with determinant zero has no inverse.
    fn inverse(&self) -> (r: Result<(Self, i64), LinAlgebraError>)
        requires
            bounded(self.entries(), Self::det_limit()),
        ensures
            match r {
                Ok((adj, d)) => {
                    &&& d == det(self.entries())
                    &&& d != 0
                    &&& adj.entries() == adjugate(self.entries())
                },
                Err(e) => {
                    &&& e == LinAlgebraError::DeterminantZero
                    &&& det(self.entries()) == 0
                },
            },
    ;
}

} // verus!
