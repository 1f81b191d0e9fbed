//! Vectors of 4 integer components.
use vstd::prelude::*;

use crate::algebra::{bounded, dot, fits, lemma_dot_self_nonneg, vec_add, vec_bounded, vec_mat};
use crate::grid::{row_add, row_dot, row_is_zero, row_times_grid, row_view, row_zeros, PRODUCT_LIMIT};
use crate::matrix4x4::Matrix4x4;
use crate::numeric::isqrt;

verus! {

/// A vector of 4 integer components.
#[derive(Clone, Copy, Debug, PartialEq, Eq)]
pub struct Vector4(pub [i64; 4]);

impl View for Vector4 {
    type V = Seq<int>;

    open spec fn view(&self) -> Seq<int> {
        row_view(self.0)
    }
}

impl Vector4 {
    pub fn new(input: [i64; 4]) -> (r: Vector4)
        ensures
            r.0 == input,
    {
        Vector4(input)
    }

    /// The additive identity: every component is zero.
    pub fn zeros() -> (r: Vector4)
        ensures
            r@ == Seq::new(4, |i: int| 0int),
    {
        Vector4(row_zeros())
    }

    /// Is every component zero?
    pub fn is_zero(&self) -> (r: bool)
        ensures
            r == (self@ == Seq::new(4, |i: int| 0int)),
    {
        row_is_zero(&self.0)
    }

    /// The Euclidean norm, rounded down to an integer.
    pub fn norm2(&self) -> (r: i64)
        requires
            vec_bounded(self@, PRODUCT_LIMIT as int),
        ensures
            r >= 0,
            r * r <= dot(self@, self@) < (r + 1) * (r + 1),
    {
        let s = row_dot(&self.0, &self.0);
        proof {
            lemma_dot_self_nonneg(self@);
        }
        isqrt(s)
    }

    /// The dot product.
    pub fn dot(self, rhs: Vector4) -> (r: i64)
        requires
            vec_bounded(self@, PRODUCT_LIMIT as int),
            vec_bounded(rhs@, PRODUCT_LIMIT as int),
        ensures
            r == dot(self@, rhs@),
    {
        row_dot(&self.0, &rhs.0)
    }

    /// The componentwise sum.
    pub fn add(self, rhs: Vector4) -> (r: Vector4)
        requires
            forall|i: int| 0 <= i < 4 ==> fits(self@[i] + rhs@[i]),
        ensures
            r@ == vec_add(self@, rhs@),
    {
        Vector4(row_add(&self.0, &rhs.0))
    }

    /// This vector, as a row, times `m`: component `j` is
    /// `sum_i self[i] * m[i][j]`.
    pub fn mul_matrix(self, m: Matrix4x4) -> (r: Vector4)
        requires
            vec_bounded(self@, PRODUCT_LIMIT as int),
            bounded(m@, PRODUCT_LIMIT as int),
        ensures
            r@ == vec_mat(self@, m@),
    {
        Vector4(row_times_grid(&self.0, &m.0))
    }
}

impl From<[i64; 4]> for Vector4 {
    fn from(data: [i64; 4]) -> (r: Vector4) {
        Vector4(data)
    }
}

impl vstd::std_specs::convert::FromSpecImpl<[i64; 4]> for Vector4 {
    open spec fn obeys_from_spec() -> bool {
        true
    }

    open spec fn from_spec(v: [i64; 4]) -> Vector4 {
        Vector4(v)
    }
}

} // verus!
