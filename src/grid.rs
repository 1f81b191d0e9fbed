//! Loops over `[[i64; N]; N]` grids and `[i64; N]` rows, shared by every
//! matrix and vector size.
use vstd::prelude::*;

use crate::algebra::{
    bounded, dot, fits, identity, mat_add, mat_mul, mat_scale, mat_vec, minor, skip, sum,
    sum_squares, trace, transpose, vec_add, vec_bounded, vec_mat, zeros,
};

verus! {

/// Entries of a product of two factors in `[-2^30, 2^30]`, summed over at
/// most six terms, stay inside `i64`.
pub const PRODUCT_LIMIT: i64 = 1073741824;

/// Squares of entries in `[-2^28, 2^28]`, summed over at most 36 terms, stay
/// inside `i64`.
pub const SQUARES_LIMIT: i64 = 268435456;

/// At most six entries in `[-2^60, 2^60]` sum to a value inside `i64`.
pub const SUM_LIMIT: i64 = 1152921504606846976;

pub open spec fn grid_view<const N: usize>(a: [[i64; N]; N]) -> Seq<Seq<int>> {
    Seq::new(N as nat, |i: int| Seq::new(N as nat, |j: int| a[i][j] as int))
}

pub open spec fn row_view<const N: usize>(v: [i64; N]) -> Seq<int> {
    Seq::new(N as nat, |i: int| v[i] as int)
}

/// The entries of `m`, row after row.
pub open spec fn flatten(m: Seq<Seq<int>>) -> Seq<int> {
    Seq::new((m.len() * m.len()) as nat, |k: int| m[k / m.len() as int][k % m.len() as int])
}

pub proof fn lemma_mul_bound(x: int, y: int, bx: int, by: int)
    requires
        -bx <= x <= bx,
        -by <= y <= by,
    ensures
        -(bx * by) <= x * y <= bx * by,
{
    assert(-(bx * by) <= x * y <= bx * by) by (nonlinear_arith)
        requires
            -bx <= x <= bx,
            -by <= y <= by,
    ;
}

pub fn grid_zeros<const N: usize>() -> (r: [[i64; N]; N])
    ensures
        grid_view(r) == zeros(N as int),
{
    let r = [[0i64; N]; N];
    assert(grid_view(r) =~~= zeros(N as int));
    r
}

pub fn grid_identity<const N: usize>() -> (r: [[i64; N]; N])
    ensures
        grid_view(r) == identity(N as int),
{
    let mut r = [[0i64; N]; N];
    let mut i: usize = 0;
    while i < N
        invariant
            i <= N,
            forall|a: int, b: int|
                0 <= a < N && 0 <= b < N ==> r[a][b] == (if a == b && a < i { 1i64 } else { 0i64 }),
        decreases N - i,
    {
        r[i][i] = 1;
        i += 1;
    }
    assert(grid_view(r) =~~= identity(N as int));
    r
}

pub fn grid_add<const N: usize>(a: &[[i64; N]; N], b: &[[i64; N]; N]) -> (r: [[i64; N]; N])
    requires
        forall|i: int, j: int|
            0 <= i < N && 0 <= j < N ==> fits(grid_view(*a)[i][j] + grid_view(*b)[i][j]),
    ensures
        grid_view(r) == mat_add(grid_view(*a), grid_view(*b)),
{
    let mut r = [[0i64; N]; N];
    let mut i: usize = 0;
    while i < N
        invariant
            i <= N,
            forall|x: int, y: int|
                0 <= x < N && 0 <= y < N ==> fits(grid_view(*a)[x][y] + grid_view(*b)[x][y]),
            forall|x: int, y: int| 0 <= x < i && 0 <= y < N ==> r[x][y] == a[x][y] + b[x][y],
        decreases N - i,
    {
        let mut j: usize = 0;
        while j < N
            invariant
                i < N,
                j <= N,
                forall|x: int, y: int|
                0 <= x < N && 0 <= y < N ==> fits(grid_view(*a)[x][y] + grid_view(*b)[x][y]),
                forall|x: int, y: int| 0 <= x < i && 0 <= y < N ==> r[x][y] == a[x][y] + b[x][y],
                forall|y: int| 0 <= y < j ==> r[i as int][y] == a[i as int][y] + b[i as int][y],
            decreases N - j,
        {
            assert(fits(grid_view(*a)[i as int][j as int] + grid_view(*b)[i as int][j as int]));
            r[i][j] = a[i][j] + b[i][j];
            j += 1;
        }
        i += 1;
    }
    assert(grid_view(r) =~~= mat_add(grid_view(*a), grid_view(*b)));
    r
}

pub fn grid_scale<const N: usize>(a: &[[i64; N]; N], k: i64) -> (r: [[i64; N]; N])
    requires
        forall|i: int, j: int| 0 <= i < N && 0 <= j < N ==> fits(grid_view(*a)[i][j] * k),
    ensures
        grid_view(r) == mat_scale(grid_view(*a), k as int),
{
    let mut r = [[0i64; N]; N];
    let mut i: usize = 0;
    while i < N
        invariant
            i <= N,
            forall|x: int, y: int| 0 <= x < N && 0 <= y < N ==> fits(grid_view(*a)[x][y] * k),
            forall|x: int, y: int| 0 <= x < i && 0 <= y < N ==> r[x][y] == a[x][y] * k,
        decreases N - i,
    {
        let mut j: usize = 0;
        while j < N
            invariant
                i < N,
                j <= N,
                forall|x: int, y: int| 0 <= x < N && 0 <= y < N ==> fits(grid_view(*a)[x][y] * k),
                forall|x: int, y: int| 0 <= x < i && 0 <= y < N ==> r[x][y] == a[x][y] * k,
                forall|y: int| 0 <= y < j ==> r[i as int][y] == a[i as int][y] * k,
            decreases N - j,
        {
            assert(fits(grid_view(*a)[i as int][j as int] * k));
            r[i][j] = a[i][j] * k;
            j += 1;
        }
        i += 1;
    }
    assert(grid_view(r) =~~= mat_scale(grid_view(*a), k as int));
    r
}

pub fn grid_transpose<const N: usize>(a: &[[i64; N]; N]) -> (r: [[i64; N]; N])
    ensures
        grid_view(r) == transpose(grid_view(*a)),
{
    let mut r = [[0i64; N]; N];
    let mut i: usize = 0;
    while i < N
        invariant
            i <= N,
            forall|x: int, y: int| 0 <= x < i && 0 <= y < N ==> r[x][y] == a[y][x],
        decreases N - i,
    {
        let mut j: usize = 0;
        while j < N
            invariant
                i < N,
                j <= N,
                forall|x: int, y: int| 0 <= x < i && 0 <= y < N ==> r[x][y] == a[y][x],
                forall|y: int| 0 <= y < j ==> r[i as int][y] == a[y][i as int],
            decreases N - j,
        {
            r[i][j] = a[j][i];
            j += 1;
        }
        i += 1;
    }
    assert(grid_view(r) =~~= transpose(grid_view(*a)));
    r
}

/// `sum_k a[i][k] * b[k][j]`.
fn entry_product<const N: usize>(a: &[[i64; N]; N], b: &[[i64; N]; N], i: usize, j: usize) -> (r:
    i64)
    requires
        1 <= N <= 6,
        i < N,
        j < N,
        bounded(grid_view(*a), PRODUCT_LIMIT as int),
        bounded(grid_view(*b), PRODUCT_LIMIT as int),
    ensures
        r == sum(N as int, |k: int| grid_view(*a)[i as int][k] * grid_view(*b)[k][j as int]),
{
    let ghost av = grid_view(*a);
    let ghost bv = grid_view(*b);
    let ghost f = |k: int| av[i as int][k] * bv[k][j as int];
    let mut acc: i64 = 0;
    let mut k: usize = 0;
    while k < N
        invariant
            N <= 6,
            i < N,
            j < N,
            k <= N,
            av == grid_view(*a),
            bv == grid_view(*b),
            f == (|k: int| av[i as int][k] * bv[k][j as int]),
            bounded(av, PRODUCT_LIMIT as int),
            bounded(bv, PRODUCT_LIMIT as int),
            acc == sum(k as int, f),
            -(k * 1152921504606846976) <= acc <= k * 1152921504606846976,
        decreases N - k,
    {
        assert(av[i as int].len() == N);
        assert(av[k as int].len() == N);
        let x = a[i][k];
        let y = b[k][j];
        assert(x == av[i as int][k as int]);
        assert(y == bv[k as int][j as int]);
        proof {
            lemma_mul_bound(x as int, y as int, PRODUCT_LIMIT as int, PRODUCT_LIMIT as int);
        }
        acc = acc + x * y;
        k += 1;
    }
    acc
}

pub fn grid_mul<const N: usize>(a: &[[i64; N]; N], b: &[[i64; N]; N]) -> (r: [[i64; N]; N])
    requires
        1 <= N <= 6,
        bounded(grid_view(*a), PRODUCT_LIMIT as int),
        bounded(grid_view(*b), PRODUCT_LIMIT as int),
    ensures
        grid_view(r) == mat_mul(grid_view(*a), grid_view(*b)),
{
    let ghost p = mat_mul(grid_view(*a), grid_view(*b));
    let mut r = [[0i64; N]; N];
    let mut i: usize = 0;
    while i < N
        invariant
            1 <= N <= 6,
            i <= N,
            bounded(grid_view(*a), PRODUCT_LIMIT as int),
            bounded(grid_view(*b), PRODUCT_LIMIT as int),
            p == mat_mul(grid_view(*a), grid_view(*b)),
            forall|x: int, y: int| 0 <= x < i && 0 <= y < N ==> r[x][y] == p[x][y],
        decreases N - i,
    {
        let mut j: usize = 0;
        while j < N
            invariant
                1 <= N <= 6,
                i < N,
                j <= N,
                bounded(grid_view(*a), PRODUCT_LIMIT as int),
                bounded(grid_view(*b), PRODUCT_LIMIT as int),
                p == mat_mul(grid_view(*a), grid_view(*b)),
                forall|x: int, y: int| 0 <= x < i && 0 <= y < N ==> r[x][y] == p[x][y],
                forall|y: int| 0 <= y < j ==> r[i as int][y] == p[i as int][y],
            decreases N - j,
        {
            r[i][j] = entry_product(a, b, i, j);
            j += 1;
        }
        i += 1;
    }
    assert(grid_view(r) =~~= p);
    r
}


pub fn grid_trace<const N: usize>(a: &[[i64; N]; N]) -> (r: i64)
    requires
        N <= 6,
        bounded(grid_view(*a), SUM_LIMIT as int),
    ensures
        r == trace(grid_view(*a)),
{
    let ghost av = grid_view(*a);
    let mut acc: i64 = 0;
    let mut k: usize = 0;
    while k < N
        invariant
            N <= 6,
            k <= N,
            av == grid_view(*a),
            bounded(av, SUM_LIMIT as int),
            acc == sum(k as int, |i: int| av[i][i]),
            -(k * 1152921504606846976) <= acc <= k * 1152921504606846976,
        decreases N - k,
    {
        assert(av[k as int].len() == N);
        assert(-SUM_LIMIT <= av[k as int][k as int] <= SUM_LIMIT);
        acc = acc + a[k][k];
        k += 1;
    }
    acc
}

/// `sum_j a[i][j] * a[i][j]`.
fn row_squares<const N: usize>(a: &[[i64; N]; N], i: usize) -> (r: i64)
    requires
        N <= 6,
        i < N,
        bounded(grid_view(*a), SQUARES_LIMIT as int),
    ensures
        r == sum(N as int, |j: int| grid_view(*a)[i as int][j] * grid_view(*a)[i as int][j]),
        0 <= r <= N * 72057594037927936,
{
    let ghost av = grid_view(*a);
    let mut acc: i64 = 0;
    let mut k: usize = 0;
    while k < N
        invariant
            N <= 6,
            i < N,
            k <= N,
            av == grid_view(*a),
            bounded(av, SQUARES_LIMIT as int),
            acc == sum(k as int, |j: int| av[i as int][j] * av[i as int][j]),
            0 <= acc <= k * 72057594037927936,
        decreases N - k,
    {
        assert(av[i as int].len() == N);
        let x = a[i][k];
        assert(x == av[i as int][k as int]);
        proof {
            lemma_mul_bound(x as int, x as int, SQUARES_LIMIT as int, SQUARES_LIMIT as int);
            assert(x * x >= 0) by (nonlinear_arith);
        }
        acc = acc + x * x;
        k += 1;
    }
    acc
}

pub fn grid_sum_squares<const N: usize>(a: &[[i64; N]; N]) -> (r: i64)
    requires
        N <= 6,
        bounded(grid_view(*a), SQUARES_LIMIT as int),
    ensures
        r == sum_squares(grid_view(*a)),
        r >= 0,
{
    let ghost av = grid_view(*a);
    let mut acc: i64 = 0;
    let mut k: usize = 0;
    while k < N
        invariant
            N <= 6,
            k <= N,
            av == grid_view(*a),
            bounded(av, SQUARES_LIMIT as int),
            acc == sum(
                k as int,
                |i: int| sum(av.len() as int, |j: int| av[i][j] * av[i][j]),
            ),
            0 <= acc <= k * (N * 72057594037927936),
        decreases N - k,
    {
        let s = row_squares(a, k);
        proof {
            assert(N * 72057594037927936 <= 6 * 72057594037927936);
            assert((k + 1) * (N * 72057594037927936) == k * (N * 72057594037927936) + N
                * 72057594037927936) by (nonlinear_arith);
            assert(k * (N * 72057594037927936) <= 5 * (6 * 72057594037927936)) by (nonlinear_arith)
                requires
                    k < N <= 6,
            ;
        }
        acc = acc + s;
        k += 1;
    }
    acc
}

pub fn row_zeros<const N: usize>() -> (r: [i64; N])
    ensures
        row_view(r) == Seq::new(N as nat, |i: int| 0int),
{
    let r = [0i64; N];
    assert(row_view(r) =~= Seq::new(N as nat, |i: int| 0int));
    r
}

pub fn row_add<const N: usize>(u: &[i64; N], v: &[i64; N]) -> (r: [i64; N])
    requires
        forall|i: int| 0 <= i < N ==> fits(row_view(*u)[i] + row_view(*v)[i]),
    ensures
        row_view(r) == vec_add(row_view(*u), row_view(*v)),
{
    let mut r = [0i64; N];
    let mut i: usize = 0;
    while i < N
        invariant
            i <= N,
            forall|x: int| 0 <= x < N ==> fits(row_view(*u)[x] + row_view(*v)[x]),
            forall|x: int| 0 <= x < i ==> r[x] == u[x] + v[x],
        decreases N - i,
    {
        assert(fits(row_view(*u)[i as int] + row_view(*v)[i as int]));
        r[i] = u[i] + v[i];
        i += 1;
    }
    assert(row_view(r) =~= vec_add(row_view(*u), row_view(*v)));
    r
}

pub fn row_dot<const N: usize>(u: &[i64; N], v: &[i64; N]) -> (r: i64)
    requires
        N <= 6,
        vec_bounded(row_view(*u), PRODUCT_LIMIT as int),
        vec_bounded(row_view(*v), PRODUCT_LIMIT as int),
    ensures
        r == dot(row_view(*u), row_view(*v)),
{
    let ghost uv = row_view(*u);
    let ghost vv = row_view(*v);
    let mut acc: i64 = 0;
    let mut k: usize = 0;
    while k < N
        invariant
            N <= 6,
            k <= N,
            uv == row_view(*u),
            vv == row_view(*v),
            vec_bounded(uv, PRODUCT_LIMIT as int),
            vec_bounded(vv, PRODUCT_LIMIT as int),
            acc == sum(k as int, |t: int| uv[t] * vv[t]),
            -(k * 1152921504606846976) <= acc <= k * 1152921504606846976,
        decreases N - k,
    {
        let x = u[k];
        let y = v[k];
        assert(x == uv[k as int]);
        assert(y == vv[k as int]);
        proof {
            lemma_mul_bound(x as int, y as int, PRODUCT_LIMIT as int, PRODUCT_LIMIT as int);
        }
        acc = acc + x * y;
        k += 1;
    }
    acc
}

/// Component `j` of the row vector `v` times `a`.
fn column_dot<const N: usize>(v: &[i64; N], a: &[[i64; N]; N], j: usize) -> (r: i64)
    requires
        N <= 6,
        j < N,
        vec_bounded(row_view(*v), PRODUCT_LIMIT as int),
        bounded(grid_view(*a), PRODUCT_LIMIT as int),
    ensures
        r == sum(N as int, |i: int| row_view(*v)[i] * grid_view(*a)[i][j as int]),
{
    let ghost vv = row_view(*v);
    let ghost av = grid_view(*a);
    let mut acc: i64 = 0;
    let mut k: usize = 0;
    while k < N
        invariant
            N <= 6,
            j < N,
            k <= N,
            vv == row_view(*v),
            av == grid_view(*a),
            vec_bounded(vv, PRODUCT_LIMIT as int),
            bounded(av, PRODUCT_LIMIT as int),
            acc == sum(k as int, |i: int| vv[i] * av[i][j as int]),
            -(k * 1152921504606846976) <= acc <= k * 1152921504606846976,
        decreases N - k,
    {
        assert(av[k as int].len() == N);
        let x = v[k];
        let y = a[k][j];
        assert(x == vv[k as int]);
        assert(y == av[k as int][j as int]);
        proof {
            lemma_mul_bound(x as int, y as int, PRODUCT_LIMIT as int, PRODUCT_LIMIT as int);
        }
        acc = acc + x * y;
        k += 1;
    }
    acc
}

/// Component `i` of `a` times the column vector `v`.
fn row_times_vector<const N: usize>(a: &[[i64; N]; N], v: &[i64; N], i: usize) -> (r: i64)
    requires
        N <= 6,
        i < N,
        vec_bounded(row_view(*v), PRODUCT_LIMIT as int),
        bounded(grid_view(*a), PRODUCT_LIMIT as int),
    ensures
        r == sum(N as int, |j: int| grid_view(*a)[i as int][j] * row_view(*v)[j]),
{
    let ghost vv = row_view(*v);
    let ghost av = grid_view(*a);
    let mut acc: i64 = 0;
    let mut k: usize = 0;
    while k < N
        invariant
            N <= 6,
            i < N,
            k <= N,
            vv == row_view(*v),
            av == grid_view(*a),
            vec_bounded(vv, PRODUCT_LIMIT as int),
            bounded(av, PRODUCT_LIMIT as int),
            acc == sum(k as int, |j: int| av[i as int][j] * vv[j]),
            -(k * 1152921504606846976) <= acc <= k * 1152921504606846976,
        decreases N - k,
    {
        assert(av[i as int].len() == N);
        let x = a[i][k];
        let y = v[k];
        assert(x == av[i as int][k as int]);
        assert(y == vv[k as int]);
        proof {
            lemma_mul_bound(x as int, y as int, PRODUCT_LIMIT as int, PRODUCT_LIMIT as int);
        }
        acc = acc + x * y;
        k += 1;
    }
    acc
}

pub fn row_times_grid<const N: usize>(v: &[i64; N], a: &[[i64; N]; N]) -> (r: [i64; N])
    requires
        N <= 6,
        vec_bounded(row_view(*v), PRODUCT_LIMIT as int),
        bounded(grid_view(*a), PRODUCT_LIMIT as int),
    ensures
        row_view(r) == vec_mat(row_view(*v), grid_view(*a)),
{
    let ghost p = vec_mat(row_view(*v), grid_view(*a));
    let mut r = [0i64; N];
    let mut j: usize = 0;
    while j < N
        invariant
            N <= 6,
            j <= N,
            vec_bounded(row_view(*v), PRODUCT_LIMIT as int),
            bounded(grid_view(*a), PRODUCT_LIMIT as int),
            p == vec_mat(row_view(*v), grid_view(*a)),
            forall|y: int| 0 <= y < j ==> r[y] == p[y],
        decreases N - j,
    {
        r[j] = column_dot(v, a, j);
        j += 1;
    }
    assert(row_view(r) =~= p);
    r
}

pub fn grid_times_row<const N: usize>(a: &[[i64; N]; N], v: &[i64; N]) -> (r: [i64; N])
    requires
        N <= 6,
        vec_bounded(row_view(*v), PRODUCT_LIMIT as int),
        bounded(grid_view(*a), PRODUCT_LIMIT as int),
    ensures
        row_view(r) == mat_vec(grid_view(*a), row_view(*v)),
{
    let ghost p = mat_vec(grid_view(*a), row_view(*v));
    let mut r = [0i64; N];
    let mut i: usize = 0;
    while i < N
        invariant
            N <= 6,
            i <= N,
            vec_bounded(row_view(*v), PRODUCT_LIMIT as int),
            bounded(grid_view(*a), PRODUCT_LIMIT as int),
            p == mat_vec(grid_view(*a), row_view(*v)),
            forall|y: int| 0 <= y < i ==> r[y] == p[y],
        decreases N - i,
    {
        r[i] = row_times_vector(a, v, i);
        i += 1;
    }
    assert(row_view(r) =~= p);
    r
}

/// Deletes row `r` and column `c` of `a`; the other rows and columns keep
/// their order.
pub fn grid_minor<const N: usize, const M: usize>(a: &[[i64; N]; N], r: usize, c: usize) -> (res:
    [[i64; M]; M])
    requires
        M + 1 == N,
        r < N,
        c < N,
    ensures
        grid_view(res) == minor(grid_view(*a), r as int, c as int),
{
    let mut res = [[0i64; M]; M];
    let mut i: usize = 0;
    while i < M
        invariant
            M + 1 == N,
            i <= M,
            r < N,
            c < N,
            forall|x: int, y: int|
                0 <= x < i && 0 <= y < M ==> res[x][y] == a[skip(x, r as int)][skip(y, c as int)],
        decreases M - i,
    {
        let si: usize = if i < r {
            i
        } else {
            i + 1
        };
        let mut j: usize = 0;
        while j < M
            invariant
                M + 1 == N,
                i < M,
                j <= M,
                r < N,
                c < N,
                si == skip(i as int, r as int),
                forall|x: int, y: int|
                    0 <= x < i && 0 <= y < M ==> res[x][y] == a[skip(x, r as int)][skip(
                        y,
                        c as int,
                    )],
                forall|y: int| 0 <= y < j ==> res[i as int][y] == a[si as int][skip(y, c as int)],
            decreases M - j,
        {
            let sj: usize = if j < c {
                j
            } else {
                j + 1
            };
            res[i][j] = a[si][sj];
            j += 1;
        }
        i += 1;
    }
    assert(grid_view(res) =~~= minor(grid_view(*a), r as int, c as int));
    res
}

pub fn grid_is_zero<const N: usize>(a: &[[i64; N]; N]) -> (r: bool)
    ensures
        r == (grid_view(*a) == zeros(N as int)),
{
    let mut i: usize = 0;
    while i < N
        invariant
            i <= N,
            forall|x: int, y: int| 0 <= x < i && 0 <= y < N ==> a[x][y] == 0,
        decreases N - i,
    {
        let mut j: usize = 0;
        while j < N
            invariant
                i < N,
                j <= N,
                forall|x: int, y: int| 0 <= x < i && 0 <= y < N ==> a[x][y] == 0,
                forall|y: int| 0 <= y < j ==> a[i as int][y] == 0,
            decreases N - j,
        {
            if a[i][j] != 0 {
                assert(grid_view(*a)[i as int][j as int] != zeros(N as int)[i as int][j as int]);
                return false;
            }
            j += 1;
        }
        i += 1;
    }
    assert(grid_view(*a) =~~= zeros(N as int));
    true
}

pub fn row_is_zero<const N: usize>(v: &[i64; N]) -> (r: bool)
    ensures
        r == (row_view(*v) == Seq::new(N as nat, |i: int| 0int)),
{
    let mut i: usize = 0;
    while i < N
        invariant
            i <= N,
            forall|x: int| 0 <= x < i ==> v[x] == 0,
        decreases N - i,
    {
        if v[i] != 0 {
            assert(row_view(*v)[i as int] != Seq::new(N as nat, |k: int| 0int)[i as int]);
            return false;
        }
        i += 1;
    }
    assert(row_view(*v) =~= Seq::new(N as nat, |k: int| 0int));
    true
}

} // verus!
