//! The failures of the linear-algebra operations.
use vstd::prelude::*;

verus! {

/// Errors of linear-algebra operations.
#[derive(Debug, Clone, Copy, PartialEq, Eq, Structural)]
pub enum LinAlgebraError {
    /// Two vectors that must both have three components do not.
    InvalidDimentionOrNotEq { len_u: usize, len_v: usize },
    /// A vector that must have one or three components does not.
    InvalidVectorDimention { len_v: usize },
    /// A matrix that must have two or three rows and columns does not.
    InvalidMatrixShape { rows: usize, columns: usize },
    /// The matrix has determinant zero, so it has no inverse.
    DeterminantZero,
    /// The input must be a three-component vector or a scalar.
    Vector3OrScalar,
}

impl LinAlgebraError {
    /// A short description of the failure.
    pub fn description(&self) -> &'static str {
        match self {
            LinAlgebraError::InvalidDimentionOrNotEq { .. } => "the vectors must both have dimension 3",
            LinAlgebraError::InvalidVectorDimention { .. } => "the vector must have dimension 1 or 3",
            LinAlgebraError::InvalidMatrixShape { .. } => "the matrix must have 2 or 3 rows and columns",
            LinAlgebraError::DeterminantZero => "the matrix is not invertible",
            LinAlgebraError::Vector3OrScalar => "the input must be a Vector3 or a scalar",
        }
    }
}

} // verus!
