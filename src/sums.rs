//! Finite sums of integers, and how wrapping passes through them.
use crate::number_traits::{lemma_wrap_congr_add, Scalar};
use vstd::arithmetic::mul::{
    lemma_mul_is_associative,
    lemma_mul_is_commutative,
    lemma_mul_is_distributive_add,
};
use vstd::prelude::*;

verus! {

/// `f(0) + f(1) + ... + f(n - 1)`, added from the left.
pub open spec fn sum(f: spec_fn(int) -> int, n: int) -> int
    decreases n,
{
    if n <= 0 {
        0
    } else {
        sum(f, n - 1) + f(n - 1)
    }
}

/// Sums of functions that agree below `n` agree.
pub proof fn lemma_sum_ext(f: spec_fn(int) -> int, g: spec_fn(int) -> int, n: int)
    requires
        forall|i: int| 0 <= i < n ==> #[trigger] f(i) == g(i),
    ensures
        sum(f, n) == sum(g, n),
    decreases n,
{
    if n > 0 {
        lemma_sum_ext(f, g, n - 1);
    }
}

/// A constant factor comes out of a sum.
pub proof fn lemma_sum_scale(f: spec_fn(int) -> int, c: int, n: int)
    ensures
        sum(|i: int| c * f(i), n) == c * sum(f, n),
    decreases n,
{
    if n > 0 {
        lemma_sum_scale(f, c, n - 1);
        lemma_mul_is_distributive_add(c, sum(f, n - 1), f(n - 1));
    }
}

/// The sum of a pointwise sum is the sum of the sums.
pub proof fn lemma_sum_add(f: spec_fn(int) -> int, g: spec_fn(int) -> int, n: int)
    ensures
        sum(|i: int| f(i) + g(i), n) == sum(f, n) + sum(g, n),
    decreases n,
{
    if n > 0 {
        lemma_sum_add(f, g, n - 1);
    }
}

/// The order of two nested sums can be exchanged.
pub proof fn lemma_sum_swap(f: spec_fn(int, int) -> int, m: int, n: int)
    ensures
        sum(|i: int| sum(|j: int| f(i, j), n), m) == sum(|j: int| sum(|i: int| f(i, j), m), n),
    decreases m,
{
    let rows = |i: int| sum(|j: int| f(i, j), n);
    let cols = |j: int| sum(|i: int| f(i, j), m);
    if m > 0 {
        lemma_sum_swap(f, m - 1, n);
        let cols_prev = |j: int| sum(|i: int| f(i, j), m - 1);
        let last = |j: int| f(m - 1, j);
        let split = |j: int| cols_prev(j) + last(j);
        assert(sum(rows, m) == sum(rows, m - 1) + sum(|j: int| f(m - 1, j), n));
        lemma_sum_ext(|j: int| f(m - 1, j), last, n);
        assert(sum(rows, m - 1) == sum(cols_prev, n));
        lemma_sum_add(cols_prev, last, n);
        assert forall|j: int| 0 <= j < n implies #[trigger] cols(j) == split(j) by {
            assert(sum(|i: int| f(i, j), m) == sum(|i: int| f(i, j), m - 1) + f(m - 1, j));
        }
        lemma_sum_ext(cols, split, n);
    } else {
        assert(sum(rows, m) == 0);
        lemma_sum_zero(cols, n);
    }
}

/// A sum whose terms vanish but at one index is that term.
pub proof fn lemma_sum_single(f: spec_fn(int) -> int, p: int, n: int)
    requires
        0 <= p < n,
        forall|i: int| 0 <= i < n && i != p ==> #[trigger] f(i) == 0,
    ensures
        sum(f, n) == f(p),
    decreases n,
{
    if n - 1 > p {
        lemma_sum_single(f, p, n - 1);
    } else {
        lemma_sum_zero(f, n - 1);
    }
}

/// A sum of vanishing terms vanishes.
pub proof fn lemma_sum_zero(f: spec_fn(int) -> int, n: int)
    requires
        forall|i: int| 0 <= i < n ==> #[trigger] f(i) == 0,
    ensures
        sum(f, n) == 0,
    decreases n,
{
    if n > 0 {
        lemma_sum_zero(f, n - 1);
    }
}

/// Regrouping a row-times-matrix-times-column sum:
/// the sum over `j` of `(sum over k of f(k) * g(k, j)) * h(j)` equals
/// the sum over `k` of `f(k) * (sum over j of g(k, j) * h(j))`.
pub proof fn lemma_sum_regroup(
    f: spec_fn(int) -> int,
    g: spec_fn(int, int) -> int,
    h: spec_fn(int) -> int,
    n: int,
)
    ensures
        sum(|j: int| sum(|k: int| f(k) * g(k, j), n) * h(j), n) == sum(
            |k: int| f(k) * sum(|j: int| g(k, j) * h(j), n),
            n,
        ),
{
    let t = |k: int, j: int| f(k) * g(k, j) * h(j);
    let by_col = |j: int| sum(|k: int| f(k) * g(k, j), n) * h(j);
    let by_col_t = |j: int| sum(|k: int| t(k, j), n);
    let by_row_t = |k: int| sum(|j: int| t(k, j), n);
    let by_row = |k: int| f(k) * sum(|j: int| g(k, j) * h(j), n);
    assert forall|j: int| 0 <= j < n implies #[trigger] by_col(j) == by_col_t(j) by {
        let fg = |k: int| f(k) * g(k, j);
        let scaled = |k: int| h(j) * fg(k);
        lemma_sum_scale(fg, h(j), n);
        assert forall|k: int| 0 <= k < n implies #[trigger] scaled(k) == t(k, j) by {
            lemma_mul_is_associative(f(k), g(k, j), h(j));
            lemma_mul_is_commutative(h(j), f(k) * g(k, j));
        }
        lemma_sum_ext(scaled, |k: int| t(k, j), n);
        lemma_sum_ext(fg, |k: int| f(k) * g(k, j), n);
        lemma_mul_is_commutative(sum(fg, n), h(j));
    }
    lemma_sum_ext(by_col, by_col_t, n);
    lemma_sum_swap(t, n, n);
    assert forall|k: int| 0 <= k < n implies #[trigger] by_row_t(k) == by_row(k) by {
        let gh = |j: int| g(k, j) * h(j);
        let scaled = |j: int| f(k) * gh(j);
        lemma_sum_scale(gh, f(k), n);
        assert forall|j: int| 0 <= j < n implies #[trigger] t(k, j) == scaled(j) by {
            lemma_mul_is_associative(f(k), g(k, j), h(j));
        }
        lemma_sum_ext(|j: int| t(k, j), scaled, n);
        lemma_sum_ext(gh, |j: int| g(k, j) * h(j), n);
    }
    lemma_sum_ext(by_row_t, by_row, n);
}

/// Terms that wrap alike give sums that wrap alike.
pub proof fn lemma_wrap_sum<T: Scalar>(f: spec_fn(int) -> int, g: spec_fn(int) -> int, n: int)
    requires
        forall|i: int| 0 <= i < n ==> T::wrap(#[trigger] f(i)) == T::wrap(g(i)),
    ensures
        T::wrap(sum(f, n)) == T::wrap(sum(g, n)),
    decreases n,
{
    if n > 0 {
        lemma_wrap_sum::<T>(f, g, n - 1);
        lemma_wrap_congr_add::<T>(sum(f, n - 1), sum(g, n - 1), f(n - 1));
        lemma_wrap_congr_add::<T>(f(n - 1), g(n - 1), sum(g, n - 1));
    }
}

} // verus!
