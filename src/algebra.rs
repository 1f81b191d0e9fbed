//! The mathematical model shared by every fixed-size matrix and vector: a
//! vector is a `Seq<int>`, a matrix a row-major `Seq<Seq<int>>`.
use vstd::prelude::*;

verus! {

/// `f(0) + f(1) + ... + f(n - 1)`.
pub open spec fn sum(n: int, f: spec_fn(int) -> int) -> int
    decreases n,
{
    if n <= 0 {
        0
    } else {
        sum(n - 1, f) + f(n - 1)
    }
}

/// Does `x` fit in an `i64`?
pub open spec fn fits(x: int) -> bool {
    i64::MIN <= x <= i64::MAX
}

pub open spec fn is_square(m: Seq<Seq<int>>, n: int) -> bool {
    &&& m.len() == n
    &&& forall|i: int| 0 <= i < n ==> #[trigger] m[i].len() == n
}

/// Every entry of `m` lies in `[-b, b]`.
pub open spec fn bounded(m: Seq<Seq<int>>, b: int) -> bool {
    forall|i: int, j: int|
        0 <= i < m.len() && 0 <= j < m[i].len() ==> -b <= #[trigger] m[i][j] <= b
}

/// Every component of `v` lies in `[-b, b]`.
pub open spec fn vec_bounded(v: Seq<int>, b: int) -> bool {
    forall|i: int| 0 <= i < v.len() ==> -b <= #[trigger] v[i] <= b
}

pub open spec fn zeros(n: int) -> Seq<Seq<int>> {
    Seq::new(n as nat, |i: int| Seq::new(n as nat, |j: int| 0))
}

pub open spec fn identity(n: int) -> Seq<Seq<int>> {
    Seq::new(n as nat, |i: int| Seq::new(n as nat, |j: int| if i == j { 1 } else { 0 }))
}

pub open spec fn mat_add(a: Seq<Seq<int>>, b: Seq<Seq<int>>) -> Seq<Seq<int>> {
    Seq::new(a.len(), |i: int| Seq::new(a.len(), |j: int| a[i][j] + b[i][j]))
}

pub open spec fn mat_scale(m: Seq<Seq<int>>, k: int) -> Seq<Seq<int>> {
    Seq::new(m.len(), |i: int| Seq::new(m.len(), |j: int| m[i][j] * k))
}

/// The standard matrix product of two square matrices of one size.
pub open spec fn mat_mul(a: Seq<Seq<int>>, b: Seq<Seq<int>>) -> Seq<Seq<int>> {
    Seq::new(
        a.len(),
        |i: int| Seq::new(a.len(), |j: int| sum(a.len() as int, |k: int| a[i][k] * b[k][j])),
    )
}

pub open spec fn transpose(m: Seq<Seq<int>>) -> Seq<Seq<int>> {
    Seq::new(m.len(), |i: int| Seq::new(m.len(), |j: int| m[j][i]))
}

pub open spec fn trace(m: Seq<Seq<int>>) -> int {
    sum(m.len() as int, |i: int| m[i][i])
}

/// The sum of the squares of every entry (the square of the Frobenius norm).
pub open spec fn sum_squares(m: Seq<Seq<int>>) -> int {
    sum(m.len() as int, |i: int| sum(m.len() as int, |j: int| m[i][j] * m[i][j]))
}

pub open spec fn vec_add(u: Seq<int>, v: Seq<int>) -> Seq<int> {
    Seq::new(u.len(), |i: int| u[i] + v[i])
}

pub open spec fn dot(u: Seq<int>, v: Seq<int>) -> int {
    sum(u.len() as int, |k: int| u[k] * v[k])
}

/// Row vector times matrix: component `j` is `sum_i v[i] * m[i][j]`.
pub open spec fn vec_mat(v: Seq<int>, m: Seq<Seq<int>>) -> Seq<int> {
    Seq::new(v.len(), |j: int| sum(v.len() as int, |i: int| v[i] * m[i][j]))
}

/// Matrix times column vector: component `i` is `sum_j m[i][j] * v[j]`.
pub open spec fn mat_vec(m: Seq<Seq<int>>, v: Seq<int>) -> Seq<int> {
    Seq::new(v.len(), |i: int| sum(v.len() as int, |j: int| m[i][j] * v[j]))
}

/// Index `i` of the matrix from which index `skipped` was deleted.
pub open spec fn skip(i: int, skipped: int) -> int {
    if i < skipped {
        i
    } else {
        i + 1
    }
}

/// The matrix left when row `r` and column `c` are deleted; the other rows
/// and columns keep their order.
pub open spec fn minor(m: Seq<Seq<int>>, r: int, c: int) -> Seq<Seq<int>> {
    Seq::new(
        (m.len() - 1) as nat,
        |i: int| Seq::new((m.len() - 1) as nat, |j: int| m[skip(i, r)][skip(j, c)]),
    )
}

pub open spec fn sign(k: int) -> int {
    if k % 2 == 0 {
        1
    } else {
        -1
    }
}

/// The determinant, by cofactor expansion along the first row.
pub open spec fn det(m: Seq<Seq<int>>) -> int
    decreases m.len(), 1int, 0int,
{
    if m.len() == 0 {
        1
    } else {
        cofactor_sum(m, m.len() as int)
    }
}

/// The first `k` terms of the expansion of `det(m)` along its first row.
pub open spec fn cofactor_sum(m: Seq<Seq<int>>, k: int) -> int
    decreases m.len(), 0int, k,
{
    if k <= 0 || m.len() == 0 {
        0
    } else {
        cofactor_sum(m, k - 1) + sign(k - 1) * m[0][k - 1] * det(minor(m, 0, k - 1))
    }
}

pub open spec fn cofactor(m: Seq<Seq<int>>, i: int, j: int) -> int {
    sign(i + j) * det(minor(m, i, j))
}

/// The transpose of the cofactor matrix: `m * adjugate(m) == det(m) * I`.
pub open spec fn adjugate(m: Seq<Seq<int>>) -> Seq<Seq<int>> {
    Seq::new(m.len(), |i: int| Seq::new(m.len(), |j: int| cofactor(m, j, i)))
}

/// `n! * b^n`, a bound on the determinant of an `n x n` matrix whose entries
/// lie in `[-b, b]`.
pub open spec fn det_bound(n: int, b: int) -> int
    decreases n,
{
    if n <= 0 {
        1
    } else {
        n * b * det_bound(n - 1, b)
    }
}

pub proof fn lemma_minor_shape(m: Seq<Seq<int>>, n: int, r: int, c: int, b: int)
    requires
        n >= 1,
        is_square(m, n),
        bounded(m, b),
        0 <= r < n,
        0 <= c < n,
    ensures
        is_square(minor(m, r, c), n - 1),
        bounded(minor(m, r, c), b),
{
    let mm = minor(m, r, c);
    assert forall|i: int, j: int| 0 <= i < mm.len() && 0 <= j < mm[i].len() implies -b <= #[trigger] mm[i][j]
        <= b by {
        assert(m[skip(i, r)].len() == n);
    }
}

/// `|cofactor_sum(m, k)| <= k * b * (n - 1)! * b^(n - 1)`.
proof fn lemma_cofactor_sum_bound(m: Seq<Seq<int>>, n: int, k: int, b: int)
    requires
        n >= 1,
        0 <= k <= n,
        b >= 0,
        is_square(m, n),
        bounded(m, b),
    ensures
        -(k * b * det_bound(n - 1, b)) <= cofactor_sum(m, k) <= k * b * det_bound(n - 1, b),
    decreases n, 0int, k,
{
    if k > 0 {
        lemma_cofactor_sum_bound(m, n, k - 1, b);
        lemma_minor_shape(m, n, 0, k - 1, b);
        lemma_det_bound(minor(m, 0, k - 1), n - 1, b);
        let d = det(minor(m, 0, k - 1));
        let x = m[0][k - 1];
        let f = det_bound(n - 1, b);
        let s = sign(k - 1);
        assert(m[0].len() == n);
        assert(-b <= x <= b);
        assert(-(b * f) <= s * x * d <= b * f) by (nonlinear_arith)
            requires
                -b <= x <= b,
                -f <= d <= f,
                s == 1 || s == -1,
        ;
        assert((k - 1) * b * f + b * f == k * b * f) by (nonlinear_arith);
        assert(cofactor_sum(m, k) == cofactor_sum(m, k - 1) + s * x * d);
    } else {
        assert(k == 0);
        assert(k * b * det_bound(n - 1, b) == 0) by (nonlinear_arith)
            requires
                k == 0,
        ;
    }
}

/// The determinant of an `n x n` matrix with entries in `[-b, b]` lies in
/// `[-n! * b^n, n! * b^n]`.
pub proof fn lemma_det_bound(m: Seq<Seq<int>>, n: int, b: int)
    requires
        n >= 0,
        b >= 0,
        is_square(m, n),
        bounded(m, b),
    ensures
        -det_bound(n, b) <= det(m) <= det_bound(n, b),
    decreases n, 1int, 0int,
{
    if n > 0 {
        lemma_cofactor_sum_bound(m, n, n, b);
    }
}

pub proof fn lemma_det1(m: Seq<Seq<int>>)
    requires
        is_square(m, 1),
    ensures
        det(m) == m[0][0],
{
    assert(minor(m, 0, 0).len() == 0);
    assert(det(minor(m, 0, 0)) == 1);
    assert(cofactor_sum(m, 0) == 0);
    assert(cofactor_sum(m, 1) == cofactor_sum(m, 0) + sign(0) * m[0][0] * det(minor(m, 0, 0)));
}

pub proof fn lemma_det2(m: Seq<Seq<int>>)
    requires
        is_square(m, 2),
    ensures
        det(m) == m[0][0] * m[1][1] - m[0][1] * m[1][0],
{
    let m0 = minor(m, 0, 0);
    let m1 = minor(m, 0, 1);
    lemma_det1(m0);
    lemma_det1(m1);
    assert(m0[0][0] == m[1][1]);
    assert(m1[0][0] == m[1][0]);
    assert(cofactor_sum(m, 0) == 0);
    assert(cofactor_sum(m, 1) == cofactor_sum(m, 0) + sign(0) * m[0][0] * det(m0));
    assert(cofactor_sum(m, 2) == cofactor_sum(m, 1) + sign(1) * m[0][1] * det(m1));
    assert(det(m) == cofactor_sum(m, 2));
    assert(sign(0) == 1 && sign(1) == -1);
    let (a, b, d0, d1) = (m[0][0], m[0][1], det(m0), det(m1));
    assert(1 * a * d0 + (-1) * b * d1 == a * d0 - b * d1) by (nonlinear_arith);
}

pub proof fn lemma_det3(m: Seq<Seq<int>>)
    requires
        is_square(m, 3),
    ensures
        det(m) == m[0][0] * (m[1][1] * m[2][2] - m[1][2] * m[2][1]) - m[0][1] * (m[1][0] * m[2][2]
            - m[1][2] * m[2][0]) + m[0][2] * (m[1][0] * m[2][1] - m[1][1] * m[2][0]),
{
    let m0 = minor(m, 0, 0);
    let m1 = minor(m, 0, 1);
    let m2 = minor(m, 0, 2);
    lemma_det2(m0);
    lemma_det2(m1);
    lemma_det2(m2);
    assert(cofactor_sum(m, 0) == 0);
    assert(cofactor_sum(m, 1) == cofactor_sum(m, 0) + sign(0) * m[0][0] * det(m0));
    assert(cofactor_sum(m, 2) == cofactor_sum(m, 1) + sign(1) * m[0][1] * det(m1));
    assert(cofactor_sum(m, 3) == cofactor_sum(m, 2) + sign(2) * m[0][2] * det(m2));
    assert(det(m) == cofactor_sum(m, 3));
    assert(sign(0) == 1 && sign(1) == -1 && sign(2) == 1);
    let (a, b, c, d0, d1, d2) = (m[0][0], m[0][1], m[0][2], det(m0), det(m1), det(m2));
    assert(1 * a * d0 + (-1) * b * d1 + 1 * c * d2 == a * d0 - b * d1 + c * d2) by (nonlinear_arith);
    assert(m0[0][0] == m[1][1] && m0[0][1] == m[1][2] && m0[1][0] == m[2][1] && m0[1][1] == m[2][2]);
    assert(m1[0][0] == m[1][0] && m1[0][1] == m[1][2] && m1[1][0] == m[2][0] && m1[1][1] == m[2][2]);
    assert(m2[0][0] == m[1][0] && m2[0][1] == m[1][1] && m2[1][0] == m[2][0] && m2[1][1] == m[2][1]);
}

pub proof fn lemma_adjugate2(m: Seq<Seq<int>>)
    requires
        is_square(m, 2),
    ensures
        adjugate(m)[0][0] == m[1][1],
        adjugate(m)[0][1] == -m[0][1],
        adjugate(m)[1][0] == -m[1][0],
        adjugate(m)[1][1] == m[0][0],
        is_square(adjugate(m), 2),
{
    lemma_det1(minor(m, 0, 0));
    lemma_det1(minor(m, 0, 1));
    lemma_det1(minor(m, 1, 0));
    lemma_det1(minor(m, 1, 1));
}

pub proof fn lemma_adjugate3(m: Seq<Seq<int>>)
    requires
        is_square(m, 3),
    ensures
        adjugate(m)[0][0] == m[1][1] * m[2][2] - m[1][2] * m[2][1],
        adjugate(m)[0][1] == m[0][2] * m[2][1] - m[0][1] * m[2][2],
        adjugate(m)[0][2] == m[0][1] * m[1][2] - m[0][2] * m[1][1],
        adjugate(m)[1][0] == m[1][2] * m[2][0] - m[1][0] * m[2][2],
        adjugate(m)[1][1] == m[0][0] * m[2][2] - m[0][2] * m[2][0],
        adjugate(m)[1][2] == m[0][2] * m[1][0] - m[0][0] * m[1][2],
        adjugate(m)[2][0] == m[1][0] * m[2][1] - m[1][1] * m[2][0],
        adjugate(m)[2][1] == m[0][1] * m[2][0] - m[0][0] * m[2][1],
        adjugate(m)[2][2] == m[0][0] * m[1][1] - m[0][1] * m[1][0],
        is_square(adjugate(m), 3),
{
    assert forall|i: int, j: int| 0 <= i < 3 && 0 <= j < 3 implies #[trigger] det(minor(m, i, j))
        == minor(m, i, j)[0][0] * minor(m, i, j)[1][1] - minor(m, i, j)[0][1] * minor(
        m,
        i,
        j,
    )[1][0] by {
        lemma_det2(minor(m, i, j));
    }
    assert(sign(0) == 1 && sign(1) == -1 && sign(2) == 1 && sign(3) == -1 && sign(4) == 1);
    let a = adjugate(m);
    assert(a[0][0] == det(minor(m, 0, 0)));
    assert(a[0][1] == -det(minor(m, 1, 0)));
    assert(a[0][2] == det(minor(m, 2, 0)));
    assert(a[1][0] == -det(minor(m, 0, 1)));
    assert(a[1][1] == det(minor(m, 1, 1)));
    assert(a[1][2] == -det(minor(m, 2, 1)));
    assert(a[2][0] == det(minor(m, 0, 2)));
    assert(a[2][1] == -det(minor(m, 1, 2)));
    assert(a[2][2] == det(minor(m, 2, 2)));
}

pub proof fn lemma_sum_nonneg(n: int, f: spec_fn(int) -> int)
    requires
        forall|k: int| 0 <= k < n ==> #[trigger] f(k) >= 0,
    ensures
        sum(n, f) >= 0,
    decreases n,
{
    if n > 0 {
        lemma_sum_nonneg(n - 1, f);
    }
}

pub proof fn lemma_dot_self_nonneg(v: Seq<int>)
    ensures
        dot(v, v) >= 0,
{
    let f = |k: int| v[k] * v[k];
    assert forall|k: int| 0 <= k < v.len() implies #[trigger] f(k) >= 0 by {
        let x = v[k];
        assert(x * x >= 0) by (nonlinear_arith);
    }
    lemma_sum_nonneg(v.len() as int, f);
}

pub proof fn lemma_sum_bound(n: int, f: spec_fn(int) -> int, c: int)
    requires
        n >= 0,
        forall|k: int| 0 <= k < n ==> -c <= #[trigger] f(k) <= c,
    ensures
        -(n * c) <= sum(n, f) <= n * c,
    decreases n,
{
    if n > 0 {
        lemma_sum_bound(n - 1, f, c);
        assert((n - 1) * c + c == n * c) by (nonlinear_arith);
    }
}

/// The product of two `n x n` matrices with entries in `[-b, b]` has entries
/// in `[-n * b * b, n * b * b]`.
pub proof fn lemma_mat_mul_bounded(x: Seq<Seq<int>>, y: Seq<Seq<int>>, n: int, b: int)
    requires
        n >= 0,
        is_square(x, n),
        is_square(y, n),
        bounded(x, b),
        bounded(y, b),
    ensures
        is_square(mat_mul(x, y), n),
        bounded(mat_mul(x, y), n * (b * b)),
{
    let p = mat_mul(x, y);
    assert forall|i: int, j: int| 0 <= i < p.len() && 0 <= j < p[i].len() implies -(n * (b * b))
        <= #[trigger] p[i][j] <= n * (b * b) by {
        let f = |k: int| x[i][k] * y[k][j];
        assert forall|k: int| 0 <= k < n implies -(b * b) <= #[trigger] f(k) <= b * b by {
            assert(x[i].len() == n && y[k].len() == n);
            let (u, v) = (x[i][k], y[k][j]);
            assert(-b <= u <= b && -b <= v <= b);
            assert(-(b * b) <= u * v <= b * b) by (nonlinear_arith)
                requires
                    -b <= u <= b,
                    -b <= v <= b,
            ;
        }
        lemma_sum_bound(n, f, b * b);
    }
}

} // verus!
