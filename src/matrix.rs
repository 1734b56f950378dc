//! Square matrices of size 2, 3 and 4, stored row-major: the element at
//! row `r` and column `c` of an `n` by `n` matrix sits at index `r * n + c`.
use crate::number_traits::{lemma_wrap_congr_mul, lemma_wrap_idem, lemma_wrap_plus, One, Scalar, Zero};
use crate::sums::{lemma_sum_ext, lemma_sum_regroup, lemma_sum_single, lemma_wrap_sum, sum};
use crate::vector::{add_arrays, add_seq, scale_array, scale_seq, sub_arrays, sub_seq, Vector4};
use vstd::prelude::*;

verus! {

pub type Matrix2<T> = [T; 4];

pub type Matrix2i = Matrix2<i32>;

pub type Matrix3<T> = [T; 9];

pub type Matrix3i = Matrix3<i32>;

pub type Matrix4<T> = [T; 16];

pub type Matrix4i = Matrix4<i32>;

/// The integer sum over `k` of `a[r, k] * b[k, c]` for `n` by `n` matrices.
pub open spec fn row_col<T: Scalar>(a: Seq<T>, b: Seq<T>, n: int, r: int, c: int) -> int {
    row_col_prefix(a, b, n, r, c, n)
}

/// The same sum over the first `k` terms only.
pub open spec fn row_col_prefix<T: Scalar>(
    a: Seq<T>,
    b: Seq<T>,
    n: int,
    r: int,
    c: int,
    k: int,
) -> int {
    sum(|t: int| a[r * n + t].val() * b[t * n + c].val(), k)
}

/// The product of two `n` by `n` matrices.
pub open spec fn mul_seq<T: Scalar>(a: Seq<T>, b: Seq<T>, n: int) -> Seq<T> {
    Seq::new((n * n) as nat, |i: int| T::wrap(row_col(a, b, n, i / n, i % n)))
}

/// The `n` by `n` identity matrix: 1 on the main diagonal, 0 elsewhere.
pub open spec fn identity_seq<T: Scalar>(n: int) -> Seq<T> {
    Seq::new((n * n) as nat, |i: int| T::wrap(if i / n == i % n { 1 } else { 0 }))
}

/// The integer sum over `c` of `m[r, c] * v[c]` for an `n` by `n` matrix.
pub open spec fn row_vec_prefix<T: Scalar>(m: Seq<T>, v: Seq<T>, n: int, r: int, k: int) -> int {
    sum(|c: int| m[r * n + c].val() * v[c].val(), k)
}

/// An `n` by `n` matrix applied to an `n`-component column vector.
pub open spec fn transform_seq<T: Scalar>(m: Seq<T>, v: Seq<T>, n: int) -> Seq<T> {
    Seq::new(n as nat, |r: int| T::wrap(row_vec_prefix(m, v, n, r, n)))
}

/// Position `r * n + c` is in row `r` and column `c`.
pub proof fn lemma_row_col_index(n: int, r: int, c: int)
    requires
        0 <= r < n,
        0 <= c < n,
    ensures
        0 <= r * n + c < n * n,
        (r * n + c) / n == r,
        (r * n + c) % n == c,
{
    assert(0 <= r * n + c < n * n) by (nonlinear_arith)
        requires
            0 <= r < n,
            0 <= c < n,
    ;
    vstd::arithmetic::div_mod::lemma_fundamental_div_mod_converse(r * n + c, n, r, c);
}

/// Every position below `n * n` has a row and a column below `n`.
pub proof fn lemma_index_row_col(n: int, i: int)
    requires
        0 <= n,
        0 <= i < n * n,
    ensures
        0 <= i / n < n,
        0 <= i % n < n,
        i == (i / n) * n + i % n,
{
    assert(n > 0) by (nonlinear_arith)
        requires
            0 <= n,
            0 <= i < n * n,
    ;
    vstd::arithmetic::div_mod::lemma_fundamental_div_mod(i, n);
    vstd::arithmetic::div_mod::lemma_mod_bound(i, n);
    vstd::arithmetic::div_mod::lemma_div_pos_is_pos(i, n);
    vstd::arithmetic::mul::lemma_mul_is_commutative(n, i / n);
    let q = i / n;
    let m = i % n;
    assert(q < n) by (nonlinear_arith)
        requires
            i == q * n + m,
            0 <= m,
            i < n * n,
            n > 0,
    ;
}

/// Element `(r, c)` of the product of two `n` by `n` matrices, its terms
/// added in ascending order of `k`.
fn row_times_col<T: Scalar, const L: usize>(
    lhs: &[T; L],
    rhs: &[T; L],
    n: usize,
    r: usize,
    c: usize,
) -> (e: T)
    requires
        L == n * n,
        r < n,
        c < n,
    ensures
        e == T::wrap(row_col(lhs@, rhs@, n as int, r as int, c as int)),
{
    proof {
        lemma_row_col_index(n as int, r as int, 0);
        lemma_row_col_index(n as int, 0, c as int);
    }
    let mut acc = lhs[r * n].times(rhs[c]);
    assert(row_col_prefix(lhs@, rhs@, n as int, r as int, c as int, 0) == 0);
    assert(row_col_prefix(lhs@, rhs@, n as int, r as int, c as int, 1) == lhs@[r * n + 0].val()
        * rhs@[0 * n + c].val());
    let mut k: usize = 1;
    while k < n
        invariant
            L == n * n,
            r < n,
            c < n,
            1 <= k <= n,
            acc == T::wrap(row_col_prefix(lhs@, rhs@, n as int, r as int, c as int, k as int)),
        decreases n - k,
    {
        proof {
            lemma_row_col_index(n as int, r as int, k as int);
            lemma_row_col_index(n as int, k as int, c as int);
            lemma_wrap_plus::<T>(
                row_col_prefix(lhs@, rhs@, n as int, r as int, c as int, k as int),
                lhs@[r * n + k].val() * rhs@[k * n + c].val(),
            );
        }
        let p = lhs[r * n + k].times(rhs[k * n + c]);
        acc = acc.plus(p);
        k += 1;
    }
    acc
}

/// The product of two `n` by `n` matrices.
fn mul_square<T: Scalar, const L: usize>(lhs: &[T; L], rhs: &[T; L], n: usize) -> (m: [T; L])
    requires
        L == n * n,
    ensures
        m@ == mul_seq(lhs@, rhs@, n as int),
{
    let mut out = *lhs;
    let mut i: usize = 0;
    while i < L
        invariant
            L == n * n,
            0 <= i <= L,
            out@.len() == L,
            forall|j: int| 0 <= j < i ==> out@[j] == #[trigger] mul_seq(lhs@, rhs@, n as int)[j],
        decreases L - i,
    {
        proof {
            lemma_index_row_col(n as int, i as int);
        }
        let e = row_times_col(lhs, rhs, n, i / n, i % n);
        out[i] = e;
        i += 1;
    }
    assert(out@ =~= mul_seq(lhs@, rhs@, n as int));
    out
}

/// The `n` by `n` identity matrix.
fn identity_square<T: Zero + One, const L: usize>(n: usize) -> (m: [T; L])
    requires
        L == n * n,
    ensures
        m@ == identity_seq::<T>(n as int),
{
    let zero = T::zero();
    let one = T::one();
    proof {
        T::lemma_wrap_val(zero);
        T::lemma_wrap_val(one);
    }
    let mut out = [zero; L];
    let mut i: usize = 0;
    while i < L
        invariant
            L == n * n,
            0 <= i <= L,
            out@.len() == L,
            zero == T::wrap(0),
            one == T::wrap(1),
            forall|j: int| 0 <= j < i ==> out@[j] == #[trigger] identity_seq::<T>(n as int)[j],
        decreases L - i,
    {
        proof {
            lemma_index_row_col(n as int, i as int);
        }
        if i / n == i % n {
            out[i] = one;
        } else {
            out[i] = zero;
        }
        i += 1;
    }
    assert(out@ =~= identity_seq::<T>(n as int));
    out
}

/// Element `r` of an `n` by `n` matrix applied to an `n`-component vector.
fn row_times_vec<T: Scalar, const L: usize, const N: usize>(
    m: &[T; L],
    v: &[T; N],
    r: usize,
) -> (e: T)
    requires
        L == N * N,
        r < N,
    ensures
        e == T::wrap(row_vec_prefix(m@, v@, N as int, r as int, N as int)),
{
    proof {
        lemma_row_col_index(N as int, r as int, 0);
    }
    let mut acc = m[r * N].times(v[0]);
    assert(row_vec_prefix(m@, v@, N as int, r as int, 0) == 0);
    assert(row_vec_prefix(m@, v@, N as int, r as int, 1) == m@[r * N + 0].val() * v@[0].val());
    let mut k: usize = 1;
    while k < N
        invariant
            L == N * N,
            r < N,
            1 <= k <= N,
            acc == T::wrap(row_vec_prefix(m@, v@, N as int, r as int, k as int)),
        decreases N - k,
    {
        proof {
            lemma_row_col_index(N as int, r as int, k as int);
            lemma_wrap_plus::<T>(
                row_vec_prefix(m@, v@, N as int, r as int, k as int),
                m@[r * N + k].val() * v@[k as int].val(),
            );
        }
        let p = m[r * N + k].times(v[k]);
        acc = acc.plus(p);
        k += 1;
    }
    acc
}

/// An `n` by `n` matrix applied to an `n`-component column vector.
fn transform_square<T: Scalar, const L: usize, const N: usize>(m: &[T; L], v: &[T; N]) -> (w: [T; N])
    requires
        L == N * N,
    ensures
        w@ == transform_seq(m@, v@, N as int),
{
    let mut out = *v;
    let mut r: usize = 0;
    while r < N
        invariant
            L == N * N,
            0 <= r <= N,
            out@.len() == N,
            forall|j: int| 0 <= j < r ==> out@[j] == #[trigger] transform_seq(m@, v@, N as int)[j],
        decreases N - r,
    {
        let e = row_times_vec(m, v, r);
        out[r] = e;
        r += 1;
    }
    assert(out@ =~= transform_seq(m@, v@, N as int));
    out
}

/// Returns the 2x2 identity matrix.
pub fn mat2_identity<T: Zero + One>() -> (m: Matrix2<T>)
    ensures
        m@ == identity_seq::<T>(2),
{
    identity_square(2)
}

/// Returns the 3x3 identity matrix.
pub fn mat3_identity<T: Zero + One>() -> (m: Matrix3<T>)
    ensures
        m@ == identity_seq::<T>(3),
{
    identity_square(3)
}

/// Returns the 4x4 identity matrix.
pub fn mat4_identity<T: Zero + One>() -> (m: Matrix4<T>)
    ensures
        m@ == identity_seq::<T>(4),
{
    identity_square(4)
}

/// Adds two 2x2 matrices together.
pub fn mat2_add<T: Scalar>(lhs: Matrix2<T>, rhs: Matrix2<T>) -> (m: Matrix2<T>)
    ensures
        m@ == add_seq(lhs@, rhs@),
{
    add_arrays(&lhs, &rhs)
}

/// Adds two 3x3 matrices together.
pub fn mat3_add<T: Scalar>(lhs: Matrix3<T>, rhs: Matrix3<T>) -> (m: Matrix3<T>)
    ensures
        m@ == add_seq(lhs@, rhs@),
{
    add_arrays(&lhs, &rhs)
}

/// Adds two 4x4 matrices together.
pub fn mat4_add<T: Scalar>(lhs: Matrix4<T>, rhs: Matrix4<T>) -> (m: Matrix4<T>)
    ensures
        m@ == add_seq(lhs@, rhs@),
{
    add_arrays(&lhs, &rhs)
}

/// Subtracts a 2x2 matrix from another.
pub fn mat2_sub<T: Scalar>(lhs: Matrix2<T>, rhs: Matrix2<T>) -> (m: Matrix2<T>)
    ensures
        m@ == sub_seq(lhs@, rhs@),
{
    sub_arrays(&lhs, &rhs)
}

/// Subtracts a 3x3 matrix from another.
pub fn mat3_sub<T: Scalar>(lhs: Matrix3<T>, rhs: Matrix3<T>) -> (m: Matrix3<T>)
    ensures
        m@ == sub_seq(lhs@, rhs@),
{
    sub_arrays(&lhs, &rhs)
}

/// Subtracts a 4x4 matrix from another.
pub fn mat4_sub<T: Scalar>(lhs: Matrix4<T>, rhs: Matrix4<T>) -> (m: Matrix4<T>)
    ensures
        m@ == sub_seq(lhs@, rhs@),
{
    sub_arrays(&lhs, &rhs)
}

/// Multiplies a 2x2 matrix by a scalar.
pub fn mat2_scale<T: Scalar>(lhs: Matrix2<T>, rhs: T) -> (m: Matrix2<T>)
    ensures
        m@ == scale_seq(lhs@, rhs),
{
    scale_array(&lhs, rhs)
}

/// Multiplies a 3x3 matrix by a scalar.
pub fn mat3_scale<T: Scalar>(lhs: Matrix3<T>, rhs: T) -> (m: Matrix3<T>)
    ensures
        m@ == scale_seq(lhs@, rhs),
{
    scale_array(&lhs, rhs)
}

/// Multiplies a 4x4 matrix by a scalar.
pub fn mat4_scale<T: Scalar>(lhs: Matrix4<T>, rhs: T) -> (m: Matrix4<T>)
    ensures
        m@ == scale_seq(lhs@, rhs),
{
    scale_array(&lhs, rhs)
}

/// Multiplies two 2x2 matrices together.
pub fn mat2_mul<T: Scalar>(lhs: Matrix2<T>, rhs: Matrix2<T>) -> (m: Matrix2<T>)
    ensures
        m@ == mul_seq(lhs@, rhs@, 2),
{
    mul_square(&lhs, &rhs, 2)
}

/// Multiplies two 3x3 matrices together.
pub fn mat3_mul<T: Scalar>(lhs: Matrix3<T>, rhs: Matrix3<T>) -> (m: Matrix3<T>)
    ensures
        m@ == mul_seq(lhs@, rhs@, 3),
{
    mul_square(&lhs, &rhs, 3)
}

/// Multiplies two 4x4 matrices together.
pub fn mat4_mul<T: Scalar>(lhs: Matrix4<T>, rhs: Matrix4<T>) -> (m: Matrix4<T>)
    ensures
        m@ == mul_seq(lhs@, rhs@, 4),
{
    mul_square(&lhs, &rhs, 4)
}

/// Transforms a vector using a 4x4 matrix, the vector taken as a column.
pub fn mat4_transform_vec<T: Scalar>(lhs: Matrix4<T>, rhs: Vector4<T>) -> (v: Vector4<T>)
    ensures
        v@ == transform_seq(lhs@, rhs@, 4),
{
    transform_square(&lhs, &rhs)
}

/// Regrouping a nested product under wrapping: wrapping the inner sums
/// first, on either side, does not change the wrapped result.
proof fn lemma_wrapped_regroup<T: Scalar>(
    f: spec_fn(int) -> int,
    g: spec_fn(int, int) -> int,
    h: spec_fn(int) -> int,
    n: int,
)
    ensures
        T::wrap(sum(|j: int| T::wrap(sum(|k: int| f(k) * g(k, j), n)).val() * h(j), n)) == T::wrap(
            sum(|k: int| f(k) * T::wrap(sum(|j: int| g(k, j) * h(j), n)).val(), n),
        ),
{
    let left_wrapped = |j: int| T::wrap(sum(|k: int| f(k) * g(k, j), n)).val() * h(j);
    let left = |j: int| sum(|k: int| f(k) * g(k, j), n) * h(j);
    let right = |k: int| f(k) * sum(|j: int| g(k, j) * h(j), n);
    let right_wrapped = |k: int| f(k) * T::wrap(sum(|j: int| g(k, j) * h(j), n)).val();
    assert forall|j: int| 0 <= j < n implies T::wrap(#[trigger] left_wrapped(j)) == T::wrap(
        left(j),
    ) by {
        T::lemma_wrap_mul(sum(|k: int| f(k) * g(k, j), n), h(j));
    }
    lemma_wrap_sum::<T>(left_wrapped, left, n);
    lemma_sum_regroup(f, g, h, n);
    assert forall|k: int| 0 <= k < n implies T::wrap(#[trigger] right(k)) == T::wrap(
        right_wrapped(k),
    ) by {
        let s = sum(|j: int| g(k, j) * h(j), n);
        lemma_wrap_idem::<T>(s);
        lemma_wrap_congr_mul::<T>(s, T::wrap(s).val(), f(k));
    }
    lemma_wrap_sum::<T>(right, right_wrapped, n);
}

/// Matrix multiplication is associative:
/// `mul(mul(a, b), c) == mul(a, mul(b, c))` for `n` by `n` matrices.
pub proof fn lemma_mul_associative<T: Scalar>(a: Seq<T>, b: Seq<T>, c: Seq<T>, n: int)
    requires
        0 <= n,
        a.len() == n * n,
        b.len() == n * n,
        c.len() == n * n,
    ensures
        mul_seq(mul_seq(a, b, n), c, n) == mul_seq(a, mul_seq(b, c, n), n),
{
    let ab = mul_seq(a, b, n);
    let bc = mul_seq(b, c, n);
    let g = |k: int, j: int| b[k * n + j].val();
    assert forall|i: int| 0 <= i < n * n implies #[trigger] mul_seq(ab, c, n)[i] == mul_seq(
        a,
        bc,
        n,
    )[i] by {
        lemma_index_row_col(n, i);
        let r = i / n;
        let col = i % n;
        let fr = |k: int| a[r * n + k].val();
        let h = |j: int| c[j * n + col].val();
        let left = |j: int| T::wrap(sum(|k: int| fr(k) * g(k, j), n)).val() * h(j);
        let right = |k: int| fr(k) * T::wrap(sum(|j: int| g(k, j) * h(j), n)).val();
        lemma_wrapped_regroup::<T>(fr, g, h, n);
        assert forall|j: int| 0 <= j < n implies #[trigger] left(j) == ab[r * n + j].val()
            * c[j * n + col].val() by {
            lemma_row_col_index(n, r, j);
            lemma_sum_ext(
                |k: int| fr(k) * g(k, j),
                |t: int| a[r * n + t].val() * b[t * n + j].val(),
                n,
            );
        }
        lemma_sum_ext(left, |t: int| ab[r * n + t].val() * c[t * n + col].val(), n);
        assert forall|k: int| 0 <= k < n implies #[trigger] right(k) == a[r * n + k].val()
            * bc[k * n + col].val() by {
            lemma_row_col_index(n, k, col);
            lemma_sum_ext(
                |j: int| g(k, j) * h(j),
                |t: int| b[k * n + t].val() * c[t * n + col].val(),
                n,
            );
        }
        lemma_sum_ext(right, |t: int| a[r * n + t].val() * bc[t * n + col].val(), n);
    }
    assert(mul_seq(ab, c, n) =~= mul_seq(a, bc, n));
}

/// Applying a product is applying its factors in turn:
/// `transform(mul(a, b), v) == transform(a, transform(b, v))`.
pub proof fn lemma_transform_mul<T: Scalar>(a: Seq<T>, b: Seq<T>, v: Seq<T>, n: int)
    requires
        0 <= n,
        a.len() == n * n,
        b.len() == n * n,
        v.len() == n,
    ensures
        transform_seq(mul_seq(a, b, n), v, n) == transform_seq(a, transform_seq(b, v, n), n),
{
    let ab = mul_seq(a, b, n);
    let bv = transform_seq(b, v, n);
    let g = |k: int, j: int| b[k * n + j].val();
    let h = |j: int| v[j].val();
    assert forall|r: int| 0 <= r < n implies #[trigger] transform_seq(ab, v, n)[r]
        == transform_seq(a, bv, n)[r] by {
        let fr = |k: int| a[r * n + k].val();
        let left = |j: int| T::wrap(sum(|k: int| fr(k) * g(k, j), n)).val() * h(j);
        let right = |k: int| fr(k) * T::wrap(sum(|j: int| g(k, j) * h(j), n)).val();
        lemma_wrapped_regroup::<T>(fr, g, h, n);
        assert forall|j: int| 0 <= j < n implies #[trigger] left(j) == ab[r * n + j].val()
            * v[j].val() by {
            lemma_row_col_index(n, r, j);
            lemma_sum_ext(
                |k: int| fr(k) * g(k, j),
                |t: int| a[r * n + t].val() * b[t * n + j].val(),
                n,
            );
        }
        lemma_sum_ext(left, |c: int| ab[r * n + c].val() * v[c].val(), n);
        assert forall|k: int| 0 <= k < n implies #[trigger] right(k) == a[r * n + k].val()
            * bv[k].val() by {
            lemma_sum_ext(|j: int| g(k, j) * h(j), |c: int| b[k * n + c].val() * v[c].val(), n);
        }
        lemma_sum_ext(right, |c: int| a[r * n + c].val() * bv[c].val(), n);
    }
    assert(transform_seq(ab, v, n) =~= transform_seq(a, bv, n));
}

/// The identity matrix is neutral for matrix multiplication on both sides:
/// `mul(identity(), m) == m` and `mul(m, identity()) == m`.
pub proof fn lemma_identity_neutral<T: Scalar>(m: Seq<T>, n: int)
    requires
        0 <= n,
        m.len() == n * n,
    ensures
        mul_seq(identity_seq::<T>(n), m, n) == m,
        mul_seq(m, identity_seq::<T>(n), n) == m,
{
    let id = identity_seq::<T>(n);
    let delta = |p: int, q: int| if p == q { 1int } else { 0int };
    assert forall|i: int| 0 <= i < n * n implies #[trigger] mul_seq(id, m, n)[i] == m[i] by {
        lemma_index_row_col(n, i);
        let r = i / n;
        let c = i % n;
        let wrapped = |k: int| id[r * n + k].val() * m[k * n + c].val();
        let exact = |k: int| delta(r, k) * m[k * n + c].val();
        assert forall|k: int| 0 <= k < n implies T::wrap(#[trigger] wrapped(k)) == T::wrap(
            exact(k),
        ) by {
            lemma_row_col_index(n, r, k);
            T::lemma_wrap_mul(delta(r, k), m[k * n + c].val());
        }
        lemma_wrap_sum::<T>(wrapped, exact, n);
        lemma_sum_single(exact, r, n);
        lemma_sum_ext(wrapped, |t: int| id[r * n + t].val() * m[t * n + c].val(), n);
        T::lemma_wrap_val(m[i]);
    }
    assert(mul_seq(id, m, n) =~= m);
    assert forall|i: int| 0 <= i < n * n implies #[trigger] mul_seq(m, id, n)[i] == m[i] by {
        lemma_index_row_col(n, i);
        let r = i / n;
        let c = i % n;
        let wrapped = |k: int| m[r * n + k].val() * id[k * n + c].val();
        let exact = |k: int| m[r * n + k].val() * delta(k, c);
        assert forall|k: int| 0 <= k < n implies T::wrap(#[trigger] wrapped(k)) == T::wrap(
            exact(k),
        ) by {
            lemma_row_col_index(n, k, c);
            lemma_wrap_idem::<T>(delta(k, c));
            lemma_wrap_congr_mul::<T>(T::wrap(delta(k, c)).val(), delta(k, c), m[r * n + k].val());
        }
        lemma_wrap_sum::<T>(wrapped, exact, n);
        lemma_sum_single(exact, c, n);
        lemma_sum_ext(wrapped, |t: int| m[r * n + t].val() * id[t * n + c].val(), n);
        T::lemma_wrap_val(m[i]);
    }
    assert(mul_seq(m, id, n) =~= m);
}

} // verus!
