//! Algebraic laws that the matrix and vector operations obey, stated over
//! the model in `algebra`.
use vstd::prelude::*;

use crate::algebra::{
    adjugate, det, identity, is_square, lemma_adjugate2, lemma_adjugate3, lemma_det2, lemma_det3,
    mat_add, mat_mul, mat_scale, mat_vec, sum, transpose, vec_add, vec_mat, zeros,
};

verus! {

/// Transposing twice gives back the matrix.
pub proof fn lemma_transpose_involution(m: Seq<Seq<int>>, n: int)
    requires
        is_square(m, n),
    ensures
        transpose(transpose(m)) == m,
{
    assert(transpose(transpose(m)) =~~= m);
}

/// Adding the zero vector changes nothing.
pub proof fn lemma_vec_add_zeros(v: Seq<int>)
    ensures
        vec_add(v, Seq::new(v.len(), |i: int| 0int)) == v,
{
    assert(vec_add(v, Seq::new(v.len(), |i: int| 0int)) =~= v);
}

/// Adding the zero matrix changes nothing.
pub proof fn lemma_mat_add_zeros(m: Seq<Seq<int>>, n: int)
    requires
        is_square(m, n),
    ensures
        mat_add(m, zeros(n)) == m,
{
    assert(mat_add(m, zeros(n)) =~~= m);
}

/// `sum(n, f) == f(j)` when `f` vanishes everywhere in `[0, n)` but at `j`.
proof fn lemma_sum_single(n: int, f: spec_fn(int) -> int, j: int)
    requires
        0 <= j < n,
        forall|k: int| 0 <= k < n && k != j ==> #[trigger] f(k) == 0,
    ensures
        sum(n, f) == f(j),
    decreases n,
{
    if n - 1 > j {
        lemma_sum_single(n - 1, f, j);
    } else {
        lemma_sum_zero(n - 1, f);
    }
}

proof fn lemma_sum_zero(n: int, f: spec_fn(int) -> int)
    requires
        forall|k: int| 0 <= k < n ==> #[trigger] f(k) == 0,
    ensures
        sum(n, f) == 0,
    decreases n,
{
    if n > 0 {
        lemma_sum_zero(n - 1, f);
    }
}

/// The identity matrix is a unit of the product on both sides.
pub proof fn lemma_mul_identity(m: Seq<Seq<int>>, n: int)
    requires
        is_square(m, n),
    ensures
        mat_mul(m, identity(n)) == m,
        mat_mul(identity(n), m) == m,
{
    let id = identity(n);
    assert forall|i: int, j: int| 0 <= i < n && 0 <= j < n implies #[trigger] mat_mul(m, id)[i][j]
        == m[i][j] by {
        let f = |k: int| m[i][k] * id[k][j];
        assert forall|k: int| 0 <= k < n && k != j implies #[trigger] f(k) == 0 by {
            assert(id[k][j] == 0);
        }
        lemma_sum_single(n, f, j);
    }
    assert forall|i: int, j: int| 0 <= i < n && 0 <= j < n implies #[trigger] mat_mul(id, m)[i][j]
        == m[i][j] by {
        let f = |k: int| id[i][k] * m[k][j];
        assert forall|k: int| 0 <= k < n && k != i implies #[trigger] f(k) == 0 by {
            assert(id[i][k] == 0);
        }
        lemma_sum_single(n, f, i);
    }
    assert(mat_mul(m, id) =~~= m);
    assert(mat_mul(id, m) =~~= m);
}

/// `m * adjugate(m) == det(m) * I` and `adjugate(m) * m == det(m) * I`:
/// divided by a nonzero determinant, the adjugate is a two-sided inverse.
pub proof fn lemma_adjugate_product2(m: Seq<Seq<int>>)
    requires
        is_square(m, 2),
    ensures
        mat_mul(m, adjugate(m)) == mat_scale(identity(2), det(m)),
        mat_mul(adjugate(m), m) == mat_scale(identity(2), det(m)),
{
    reveal_with_fuel(sum, 3);
    lemma_adjugate2(m);
    lemma_det2(m);
    let a = adjugate(m);
    let d = det(m);
    let p = mat_mul(m, a);
    let q = mat_mul(a, m);
    let s = mat_scale(identity(2), d);
    let x00 = m[0][0];
    let y00 = a[0][0];
    let x01 = m[0][1];
    let y01 = a[0][1];
    let x10 = m[1][0];
    let y10 = a[1][0];
    let x11 = m[1][1];
    let y11 = a[1][1];
    assert(p[0][0] == x00 * y00 + x01 * y10);
    assert(x00 * (x11) + x01 * (-x10) == (x00 * x11 - x01 * x10)) by (nonlinear_arith);
    assert(q[0][0] == y00 * x00 + y01 * x10);
    assert((x11) * x00 + (-x01) * x10 == (x00 * x11 - x01 * x10)) by (nonlinear_arith);
    assert(identity(2)[0][0] == 1);
    assert(s[0][0] == d) by (nonlinear_arith)
        requires
            s[0][0] == identity(2)[0][0] * d,
            identity(2)[0][0] == 1,
    ;
    assert(p[0][1] == x00 * y01 + x01 * y11);
    assert(x00 * (-x01) + x01 * (x00) == 0) by (nonlinear_arith);
    assert(q[0][1] == y00 * x01 + y01 * x11);
    assert((x11) * x01 + (-x01) * x11 == 0) by (nonlinear_arith);
    assert(identity(2)[0][1] == 0);
    assert(s[0][1] == 0) by (nonlinear_arith)
        requires
            s[0][1] == identity(2)[0][1] * d,
            identity(2)[0][1] == 0,
    ;
    assert(p[1][0] == x10 * y00 + x11 * y10);
    assert(x10 * (x11) + x11 * (-x10) == 0) by (nonlinear_arith);
    assert(q[1][0] == y10 * x00 + y11 * x10);
    assert((-x10) * x00 + (x00) * x10 == 0) by (nonlinear_arith);
    assert(identity(2)[1][0] == 0);
    assert(s[1][0] == 0) by (nonlinear_arith)
        requires
            s[1][0] == identity(2)[1][0] * d,
            identity(2)[1][0] == 0,
    ;
    assert(p[1][1] == x10 * y01 + x11 * y11);
    assert(x10 * (-x01) + x11 * (x00) == (x00 * x11 - x01 * x10)) by (nonlinear_arith);
    assert(q[1][1] == y10 * x01 + y11 * x11);
    assert((-x10) * x01 + (x00) * x11 == (x00 * x11 - x01 * x10)) by (nonlinear_arith);
    assert(identity(2)[1][1] == 1);
    assert(s[1][1] == d) by (nonlinear_arith)
        requires
            s[1][1] == identity(2)[1][1] * d,
            identity(2)[1][1] == 1,
    ;
    assert(p =~~= s);
    assert(q =~~= s);
}

proof fn lemma_sum_ext(n: int, f: spec_fn(int) -> int, g: spec_fn(int) -> int)
    requires
        forall|k: int| 0 <= k < n ==> #[trigger] f(k) == g(k),
    ensures
        sum(n, f) == sum(n, g),
    decreases n,
{
    if n > 0 {
        lemma_sum_ext(n - 1, f, g);
    }
}

proof fn lemma_sum_scale(n: int, f: spec_fn(int) -> int, c: int)
    ensures
        sum(n, |k: int| c * f(k)) == c * sum(n, f),
    decreases n,
{
    if n > 0 {
        lemma_sum_scale(n - 1, f, c);
        let (s, x) = (sum(n - 1, f), f(n - 1));
        assert(c * s + c * x == c * (s + x)) by (nonlinear_arith);
    }
}

proof fn lemma_sum_add(n: int, f: spec_fn(int) -> int, g: spec_fn(int) -> int)
    ensures
        sum(n, |k: int| f(k) + g(k)) == sum(n, f) + sum(n, g),
    decreases n,
{
    if n > 0 {
        lemma_sum_add(n - 1, f, g);
    }
}

/// Two finite sums may be taken in either order.
proof fn lemma_sum_swap(n: int, m: int, g: spec_fn(int, int) -> int)
    requires
        n >= 0,
        m >= 0,
    ensures
        sum(n, |i: int| sum(m, |k: int| g(i, k))) == sum(m, |k: int| sum(n, |i: int| g(i, k))),
    decreases n,
{
    if n > 0 {
        lemma_sum_swap(n - 1, m, g);
        let h = |k: int| sum(n, |i: int| g(i, k));
        let h1 = |k: int| sum(n - 1, |i: int| g(i, k));
        let h2 = |k: int| g(n - 1, k);
        let f = |i: int| sum(m, |k: int| g(i, k));
        lemma_sum_add(m, h1, h2);
        lemma_sum_ext(m, h, |k: int| h1(k) + h2(k));
        assert(sum(n, f) == sum(n - 1, f) + f(n - 1));
        assert(f(n - 1) == sum(m, h2));
        assert(sum(m, h) == sum(m, h1) + sum(m, h2));
    } else {
        lemma_sum_zero(m, |k: int| sum(n, |i: int| g(i, k)));
    }
}

/// Row vector times a product: `v * (a * b) == (v * a) * b`.
pub proof fn lemma_vec_mat_assoc(v: Seq<int>, a: Seq<Seq<int>>, b: Seq<Seq<int>>, n: int)
    requires
        v.len() == n,
        is_square(a, n),
        is_square(b, n),
    ensures
        vec_mat(v, mat_mul(a, b)) == vec_mat(vec_mat(v, a), b),
{
    let ab = mat_mul(a, b);
    let w = vec_mat(v, a);
    let lhs = vec_mat(v, ab);
    let rhs = vec_mat(w, b);
    assert forall|j: int| 0 <= j < n implies #[trigger] lhs[j] == rhs[j] by {
        let g = |i: int, k: int| v[i] * (a[i][k] * b[k][j]);
        // lhs[j] == sum_i sum_k g(i, k)
        assert forall|i: int| 0 <= i < n implies #[trigger] (v[i] * ab[i][j]) == sum(
            n,
            |k: int| g(i, k),
        ) by {
            let f = |k: int| a[i][k] * b[k][j];
            lemma_sum_scale(n, f, v[i]);
            lemma_sum_ext(n, |k: int| v[i] * f(k), |k: int| g(i, k));
        }
        lemma_sum_ext(n, |i: int| v[i] * ab[i][j], |i: int| sum(n, |k: int| g(i, k)));
        lemma_sum_swap(n, n, g);
        // rhs[j] == sum_k sum_i g(i, k)
        assert forall|k: int| 0 <= k < n implies #[trigger] (w[k] * b[k][j]) == sum(
            n,
            |i: int| g(i, k),
        ) by {
            let f = |i: int| v[i] * a[i][k];
            let c = b[k][j];
            lemma_sum_scale(n, f, c);
            assert forall|i: int| 0 <= i < n implies #[trigger] (c * f(i)) == g(i, k) by {
                let (x, y) = (v[i], a[i][k]);
                assert(c * (x * y) == x * (y * c)) by (nonlinear_arith);
            }
            lemma_sum_ext(n, |i: int| c * f(i), |i: int| g(i, k));
            assert(w[k] * c == c * w[k]) by (nonlinear_arith);
        }
        lemma_sum_ext(n, |k: int| w[k] * b[k][j], |k: int| sum(n, |i: int| g(i, k)));
    }
    assert(lhs =~= rhs);
}

/// A product times a column vector: `(a * b) * u == a * (b * u)`.
pub proof fn lemma_mat_vec_assoc(a: Seq<Seq<int>>, b: Seq<Seq<int>>, u: Seq<int>, n: int)
    requires
        u.len() == n,
        is_square(a, n),
        is_square(b, n),
    ensures
        mat_vec(mat_mul(a, b), u) == mat_vec(a, mat_vec(b, u)),
{
    let ab = mat_mul(a, b);
    let bu = mat_vec(b, u);
    let lhs = mat_vec(ab, u);
    let rhs = mat_vec(a, bu);
    assert forall|i: int| 0 <= i < n implies #[trigger] lhs[i] == rhs[i] by {
        let g = |j: int, k: int| a[i][k] * (b[k][j] * u[j]);
        assert forall|j: int| 0 <= j < n implies #[trigger] (ab[i][j] * u[j]) == sum(
            n,
            |k: int| g(j, k),
        ) by {
            let f = |k: int| a[i][k] * b[k][j];
            let c = u[j];
            lemma_sum_scale(n, f, c);
            assert forall|k: int| 0 <= k < n implies #[trigger] (c * f(k)) == g(j, k) by {
                let (x, y) = (a[i][k], b[k][j]);
                assert(c * (x * y) == x * (y * c)) by (nonlinear_arith);
            }
            lemma_sum_ext(n, |k: int| c * f(k), |k: int| g(j, k));
            assert(ab[i][j] * c == c * ab[i][j]) by (nonlinear_arith);
        }
        lemma_sum_ext(n, |j: int| ab[i][j] * u[j], |j: int| sum(n, |k: int| g(j, k)));
        lemma_sum_swap(n, n, g);
        assert forall|k: int| 0 <= k < n implies #[trigger] (a[i][k] * bu[k]) == sum(
            n,
            |j: int| g(j, k),
        ) by {
            let f = |j: int| b[k][j] * u[j];
            lemma_sum_scale(n, f, a[i][k]);
            lemma_sum_ext(n, |j: int| a[i][k] * f(j), |j: int| g(j, k));
        }
        lemma_sum_ext(n, |k: int| a[i][k] * bu[k], |k: int| sum(n, |j: int| g(j, k)));
    }
    assert(lhs =~= rhs);
}

/// The eighteen polynomial identities behind `m * adjugate(m) == det(m) * I`
/// and `adjugate(m) * m == det(m) * I` for a 3 x 3 matrix.
proof fn lemma_cofactor_identities3(x00: int, x01: int, x02: int, x10: int, x11: int, x12: int, x20: int, x21: int, x22: int)
    ensures
        x00 * (x11 * x22 - x12 * x21) + x01 * (x12 * x20 - x10 * x22) + x02 * (x10 * x21 - x11 * x20) == (x00 * (x11 * x22 - x12 * x21) - x01 * (x10 * x22 - x12 * x20) + x02 * (x10 * x21 - x11 * x20)),
        (x11 * x22 - x12 * x21) * x00 + (x02 * x21 - x01 * x22) * x10 + (x01 * x12 - x02 * x11) * x20 == (x00 * (x11 * x22 - x12 * x21) - x01 * (x10 * x22 - x12 * x20) + x02 * (x10 * x21 - x11 * x20)),
        x00 * (x02 * x21 - x01 * x22) + x01 * (x00 * x22 - x02 * x20) + x02 * (x01 * x20 - x00 * x21) == 0,
        (x11 * x22 - x12 * x21) * x01 + (x02 * x21 - x01 * x22) * x11 + (x01 * x12 - x02 * x11) * x21 == 0,
        x00 * (x01 * x12 - x02 * x11) + x01 * (x02 * x10 - x00 * x12) + x02 * (x00 * x11 - x01 * x10) == 0,
        (x11 * x22 - x12 * x21) * x02 + (x02 * x21 - x01 * x22) * x12 + (x01 * x12 - x02 * x11) * x22 == 0,
        x10 * (x11 * x22 - x12 * x21) + x11 * (x12 * x20 - x10 * x22) + x12 * (x10 * x21 - x11 * x20) == 0,
        (x12 * x20 - x10 * x22) * x00 + (x00 * x22 - x02 * x20) * x10 + (x02 * x10 - x00 * x12) * x20 == 0,
        x10 * (x02 * x21 - x01 * x22) + x11 * (x00 * x22 - x02 * x20) + x12 * (x01 * x20 - x00 * x21) == (x00 * (x11 * x22 - x12 * x21) - x01 * (x10 * x22 - x12 * x20) + x02 * (x10 * x21 - x11 * x20)),
        (x12 * x20 - x10 * x22) * x01 + (x00 * x22 - x02 * x20) * x11 + (x02 * x10 - x00 * x12) * x21 == (x00 * (x11 * x22 - x12 * x21) - x01 * (x10 * x22 - x12 * x20) + x02 * (x10 * x21 - x11 * x20)),
        x10 * (x01 * x12 - x02 * x11) + x11 * (x02 * x10 - x00 * x12) + x12 * (x00 * x11 - x01 * x10) == 0,
        (x12 * x20 - x10 * x22) * x02 + (x00 * x22 - x02 * x20) * x12 + (x02 * x10 - x00 * x12) * x22 == 0,
        x20 * (x11 * x22 - x12 * x21) + x21 * (x12 * x20 - x10 * x22) + x22 * (x10 * x21 - x11 * x20) == 0,
        (x10 * x21 - x11 * x20) * x00 + (x01 * x20 - x00 * x21) * x10 + (x00 * x11 - x01 * x10) * x20 == 0,
        x20 * (x02 * x21 - x01 * x22) + x21 * (x00 * x22 - x02 * x20) + x22 * (x01 * x20 - x00 * x21) == 0,
        (x10 * x21 - x11 * x20) * x01 + (x01 * x20 - x00 * x21) * x11 + (x00 * x11 - x01 * x10) * x21 == 0,
        x20 * (x01 * x12 - x02 * x11) + x21 * (x02 * x10 - x00 * x12) + x22 * (x00 * x11 - x01 * x10) == (x00 * (x11 * x22 - x12 * x21) - x01 * (x10 * x22 - x12 * x20) + x02 * (x10 * x21 - x11 * x20)),
        (x10 * x21 - x11 * x20) * x02 + (x01 * x20 - x00 * x21) * x12 + (x00 * x11 - x01 * x10) * x22 == (x00 * (x11 * x22 - x12 * x21) - x01 * (x10 * x22 - x12 * x20) + x02 * (x10 * x21 - x11 * x20)),
{
    assert(x00 * (x11 * x22 - x12 * x21) == x00 * x11 * x22 - x00 * x12 * x21) by (nonlinear_arith);
    assert(x01 * (x10 * x22 - x12 * x20) == x01 * x10 * x22 - x01 * x12 * x20) by (nonlinear_arith);
    assert(x02 * (x10 * x21 - x11 * x20) == x02 * x10 * x21 - x02 * x11 * x20) by (nonlinear_arith);
    assert((x11 * x22 - x12 * x21) * x00 == x00 * x11 * x22 - x00 * x12 * x21) by (nonlinear_arith);
    assert(x01 * (x12 * x20 - x10 * x22) == x01 * x12 * x20 - x01 * x10 * x22) by (nonlinear_arith);
    assert((x02 * x21 - x01 * x22) * x10 == x02 * x10 * x21 - x01 * x10 * x22) by (nonlinear_arith);
    assert((x01 * x12 - x02 * x11) * x20 == x01 * x12 * x20 - x02 * x11 * x20) by (nonlinear_arith);
    assert(x00 * (x02 * x21 - x01 * x22) == x00 * x02 * x21 - x00 * x01 * x22) by (nonlinear_arith);
    assert((x11 * x22 - x12 * x21) * x01 == x01 * x11 * x22 - x01 * x12 * x21) by (nonlinear_arith);
    assert(x01 * (x00 * x22 - x02 * x20) == x00 * x01 * x22 - x01 * x02 * x20) by (nonlinear_arith);
    assert((x02 * x21 - x01 * x22) * x11 == x02 * x11 * x21 - x01 * x11 * x22) by (nonlinear_arith);
    assert(x02 * (x01 * x20 - x00 * x21) == x01 * x02 * x20 - x00 * x02 * x21) by (nonlinear_arith);
    assert((x01 * x12 - x02 * x11) * x21 == x01 * x12 * x21 - x02 * x11 * x21) by (nonlinear_arith);
    assert(x00 * (x01 * x12 - x02 * x11) == x00 * x01 * x12 - x00 * x02 * x11) by (nonlinear_arith);
    assert((x11 * x22 - x12 * x21) * x02 == x02 * x11 * x22 - x02 * x12 * x21) by (nonlinear_arith);
    assert(x01 * (x02 * x10 - x00 * x12) == x01 * x02 * x10 - x00 * x01 * x12) by (nonlinear_arith);
    assert((x02 * x21 - x01 * x22) * x12 == x02 * x12 * x21 - x01 * x12 * x22) by (nonlinear_arith);
    assert(x02 * (x00 * x11 - x01 * x10) == x00 * x02 * x11 - x01 * x02 * x10) by (nonlinear_arith);
    assert((x01 * x12 - x02 * x11) * x22 == x01 * x12 * x22 - x02 * x11 * x22) by (nonlinear_arith);
    assert(x10 * (x11 * x22 - x12 * x21) == x10 * x11 * x22 - x10 * x12 * x21) by (nonlinear_arith);
    assert((x12 * x20 - x10 * x22) * x00 == x00 * x12 * x20 - x00 * x10 * x22) by (nonlinear_arith);
    assert(x11 * (x12 * x20 - x10 * x22) == x11 * x12 * x20 - x10 * x11 * x22) by (nonlinear_arith);
    assert((x00 * x22 - x02 * x20) * x10 == x00 * x10 * x22 - x02 * x10 * x20) by (nonlinear_arith);
    assert(x12 * (x10 * x21 - x11 * x20) == x10 * x12 * x21 - x11 * x12 * x20) by (nonlinear_arith);
    assert((x02 * x10 - x00 * x12) * x20 == x02 * x10 * x20 - x00 * x12 * x20) by (nonlinear_arith);
    assert(x10 * (x02 * x21 - x01 * x22) == x02 * x10 * x21 - x01 * x10 * x22) by (nonlinear_arith);
    assert((x12 * x20 - x10 * x22) * x01 == x01 * x12 * x20 - x01 * x10 * x22) by (nonlinear_arith);
    assert(x11 * (x00 * x22 - x02 * x20) == x00 * x11 * x22 - x02 * x11 * x20) by (nonlinear_arith);
    assert((x00 * x22 - x02 * x20) * x11 == x00 * x11 * x22 - x02 * x11 * x20) by (nonlinear_arith);
    assert(x12 * (x01 * x20 - x00 * x21) == x01 * x12 * x20 - x00 * x12 * x21) by (nonlinear_arith);
    assert((x02 * x10 - x00 * x12) * x21 == x02 * x10 * x21 - x00 * x12 * x21) by (nonlinear_arith);
    assert(x10 * (x01 * x12 - x02 * x11) == x01 * x10 * x12 - x02 * x10 * x11) by (nonlinear_arith);
    assert((x12 * x20 - x10 * x22) * x02 == x02 * x12 * x20 - x02 * x10 * x22) by (nonlinear_arith);
    assert(x11 * (x02 * x10 - x00 * x12) == x02 * x10 * x11 - x00 * x11 * x12) by (nonlinear_arith);
    assert((x00 * x22 - x02 * x20) * x12 == x00 * x12 * x22 - x02 * x12 * x20) by (nonlinear_arith);
    assert(x12 * (x00 * x11 - x01 * x10) == x00 * x11 * x12 - x01 * x10 * x12) by (nonlinear_arith);
    assert((x02 * x10 - x00 * x12) * x22 == x02 * x10 * x22 - x00 * x12 * x22) by (nonlinear_arith);
    assert(x20 * (x11 * x22 - x12 * x21) == x11 * x20 * x22 - x12 * x20 * x21) by (nonlinear_arith);
    assert((x10 * x21 - x11 * x20) * x00 == x00 * x10 * x21 - x00 * x11 * x20) by (nonlinear_arith);
    assert(x21 * (x12 * x20 - x10 * x22) == x12 * x20 * x21 - x10 * x21 * x22) by (nonlinear_arith);
    assert((x01 * x20 - x00 * x21) * x10 == x01 * x10 * x20 - x00 * x10 * x21) by (nonlinear_arith);
    assert(x22 * (x10 * x21 - x11 * x20) == x10 * x21 * x22 - x11 * x20 * x22) by (nonlinear_arith);
    assert((x00 * x11 - x01 * x10) * x20 == x00 * x11 * x20 - x01 * x10 * x20) by (nonlinear_arith);
    assert(x20 * (x02 * x21 - x01 * x22) == x02 * x20 * x21 - x01 * x20 * x22) by (nonlinear_arith);
    assert((x10 * x21 - x11 * x20) * x01 == x01 * x10 * x21 - x01 * x11 * x20) by (nonlinear_arith);
    assert(x21 * (x00 * x22 - x02 * x20) == x00 * x21 * x22 - x02 * x20 * x21) by (nonlinear_arith);
    assert((x01 * x20 - x00 * x21) * x11 == x01 * x11 * x20 - x00 * x11 * x21) by (nonlinear_arith);
    assert(x22 * (x01 * x20 - x00 * x21) == x01 * x20 * x22 - x00 * x21 * x22) by (nonlinear_arith);
    assert((x00 * x11 - x01 * x10) * x21 == x00 * x11 * x21 - x01 * x10 * x21) by (nonlinear_arith);
    assert(x20 * (x01 * x12 - x02 * x11) == x01 * x12 * x20 - x02 * x11 * x20) by (nonlinear_arith);
    assert((x10 * x21 - x11 * x20) * x02 == x02 * x10 * x21 - x02 * x11 * x20) by (nonlinear_arith);
    assert(x21 * (x02 * x10 - x00 * x12) == x02 * x10 * x21 - x00 * x12 * x21) by (nonlinear_arith);
    assert((x01 * x20 - x00 * x21) * x12 == x01 * x12 * x20 - x00 * x12 * x21) by (nonlinear_arith);
    assert(x22 * (x00 * x11 - x01 * x10) == x00 * x11 * x22 - x01 * x10 * x22) by (nonlinear_arith);
    assert((x00 * x11 - x01 * x10) * x22 == x00 * x11 * x22 - x01 * x10 * x22) by (nonlinear_arith);
}

/// `m * adjugate(m) == det(m) * I` and `adjugate(m) * m == det(m) * I`:
/// divided by a nonzero determinant, the adjugate is a two-sided inverse.
pub proof fn lemma_adjugate_product3(m: Seq<Seq<int>>)
    requires
        is_square(m, 3),
    ensures
        mat_mul(m, adjugate(m)) == mat_scale(identity(3), det(m)),
        mat_mul(adjugate(m), m) == mat_scale(identity(3), det(m)),
{
    reveal_with_fuel(sum, 4);
    lemma_adjugate3(m);
    lemma_det3(m);
    let a = adjugate(m);
    let d = det(m);
    let p = mat_mul(m, a);
    let q = mat_mul(a, m);
    let s = mat_scale(identity(3), d);
    let x00 = m[0][0];
    let y00 = a[0][0];
    let x01 = m[0][1];
    let y01 = a[0][1];
    let x02 = m[0][2];
    let y02 = a[0][2];
    let x10 = m[1][0];
    let y10 = a[1][0];
    let x11 = m[1][1];
    let y11 = a[1][1];
    let x12 = m[1][2];
    let y12 = a[1][2];
    let x20 = m[2][0];
    let y20 = a[2][0];
    let x21 = m[2][1];
    let y21 = a[2][1];
    let x22 = m[2][2];
    let y22 = a[2][2];
    lemma_cofactor_identities3(x00, x01, x02, x10, x11, x12, x20, x21, x22);
    assert(p[0][0] == x00 * y00 + x01 * y10 + x02 * y20);
    assert(q[0][0] == y00 * x00 + y01 * x10 + y02 * x20);
    assert(identity(3)[0][0] == 1);
    assert(s[0][0] == d) by (nonlinear_arith)
        requires
            s[0][0] == identity(3)[0][0] * d,
            identity(3)[0][0] == 1,
    ;
    assert(p[0][1] == x00 * y01 + x01 * y11 + x02 * y21);
    assert(q[0][1] == y00 * x01 + y01 * x11 + y02 * x21);
    assert(identity(3)[0][1] == 0);
    assert(s[0][1] == 0) by (nonlinear_arith)
        requires
            s[0][1] == identity(3)[0][1] * d,
            identity(3)[0][1] == 0,
    ;
    assert(p[0][2] == x00 * y02 + x01 * y12 + x02 * y22);
    assert(q[0][2] == y00 * x02 + y01 * x12 + y02 * x22);
    assert(identity(3)[0][2] == 0);
    assert(s[0][2] == 0) by (nonlinear_arith)
        requires
            s[0][2] == identity(3)[0][2] * d,
            identity(3)[0][2] == 0,
    ;
    assert(p[1][0] == x10 * y00 + x11 * y10 + x12 * y20);
    assert(q[1][0] == y10 * x00 + y11 * x10 + y12 * x20);
    assert(identity(3)[1][0] == 0);
    assert(s[1][0] == 0) by (nonlinear_arith)
        requires
            s[1][0] == identity(3)[1][0] * d,
            identity(3)[1][0] == 0,
    ;
    assert(p[1][1] == x10 * y01 + x11 * y11 + x12 * y21);
    assert(q[1][1] == y10 * x01 + y11 * x11 + y12 * x21);
    assert(identity(3)[1][1] == 1);
    assert(s[1][1] == d) by (nonlinear_arith)
        requires
            s[1][1] == identity(3)[1][1] * d,
            identity(3)[1][1] == 1,
    ;
    assert(p[1][2] == x10 * y02 + x11 * y12 + x12 * y22);
    assert(q[1][2] == y10 * x02 + y11 * x12 + y12 * x22);
    assert(identity(3)[1][2] == 0);
    assert(s[1][2] == 0) by (nonlinear_arith)
        requires
            s[1][2] == identity(3)[1][2] * d,
            identity(3)[1][2] == 0,
    ;
    assert(p[2][0] == x20 * y00 + x21 * y10 + x22 * y20);
    assert(q[2][0] == y20 * x00 + y21 * x10 + y22 * x20);
    assert(identity(3)[2][0] == 0);
    assert(s[2][0] == 0) by (nonlinear_arith)
        requires
            s[2][0] == identity(3)[2][0] * d,
            identity(3)[2][0] == 0,
    ;
    assert(p[2][1] == x20 * y01 + x21 * y11 + x22 * y21);
    assert(q[2][1] == y20 * x01 + y21 * x11 + y22 * x21);
    assert(identity(3)[2][1] == 0);
    assert(s[2][1] == 0) by (nonlinear_arith)
        requires
            s[2][1] == identity(3)[2][1] * d,
            identity(3)[2][1] == 0,
    ;
    assert(p[2][2] == x20 * y02 + x21 * y12 + x22 * y22);
    assert(q[2][2] == y20 * x02 + y21 * x12 + y22 * x22);
    assert(identity(3)[2][2] == 1);
    assert(s[2][2] == d) by (nonlinear_arith)
        requires
            s[2][2] == identity(3)[2][2] * d,
            identity(3)[2][2] == 1,
    ;
    assert(p =~~= s);
    assert(q =~~= s);
}

} // verus!
