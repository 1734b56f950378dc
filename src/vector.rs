//! Vectors of two, three and four components, and the component-wise
//! model that matrices share.
use crate::number_traits::{
    lemma_wrap_minus,
    lemma_wrap_plus,
    Scalar,
    Zero,
};
use crate::sums::{lemma_sum_ext, sum};
use vstd::prelude::*;

verus! {

pub type Vector2<T> = [T; 2];

pub type Vector2i = Vector2<i32>;

pub type Vector3<T> = [T; 3];

pub type Vector3i = Vector3<i32>;

pub type Vector4<T> = [T; 4];

pub type Vector4i = Vector4<i32>;

/// Component-wise sum.
pub open spec fn add_seq<T: Scalar>(a: Seq<T>, b: Seq<T>) -> Seq<T> {
    Seq::new(a.len(), |i: int| T::wrap(a[i].val() + b[i].val()))
}

/// Component-wise difference.
pub open spec fn sub_seq<T: Scalar>(a: Seq<T>, b: Seq<T>) -> Seq<T> {
    Seq::new(a.len(), |i: int| T::wrap(a[i].val() - b[i].val()))
}

/// Every component multiplied by `s`.
pub open spec fn scale_seq<T: Scalar>(a: Seq<T>, s: T) -> Seq<T> {
    Seq::new(a.len(), |i: int| T::wrap(a[i].val() * s.val()))
}

/// The integer sum of the products of the first `k` components.
pub open spec fn dot_prefix<T: Scalar>(a: Seq<T>, b: Seq<T>, k: int) -> int {
    sum(|i: int| a[i].val() * b[i].val(), k)
}

/// The integer sum of the component-wise products.
pub open spec fn dot_sum<T: Scalar>(a: Seq<T>, b: Seq<T>) -> int {
    dot_prefix(a, b, a.len() as int)
}

/// The right-handed cross product of two three-component sequences.
pub open spec fn cross_seq<T: Scalar>(a: Seq<T>, b: Seq<T>) -> Seq<T> {
    seq![
        T::wrap(a[1].val() * b[2].val() - a[2].val() * b[1].val()),
        T::wrap(a[2].val() * b[0].val() - a[0].val() * b[2].val()),
        T::wrap(a[0].val() * b[1].val() - a[1].val() * b[0].val()),
    ]
}

/// Component-wise sum of two arrays of one length.
pub(crate) fn add_arrays<T: Scalar, const N: usize>(lhs: &[T; N], rhs: &[T; N]) -> (r: [T; N])
    ensures
        r@ == add_seq(lhs@, rhs@),
{
    let mut out = *lhs;
    let mut i: usize = 0;
    while i < N
        invariant
            0 <= i <= N,
            out@.len() == N,
            forall|j: int| 0 <= j < i ==> out@[j] == #[trigger] add_seq(lhs@, rhs@)[j],
        decreases N - i,
    {
        let v = lhs[i].plus(rhs[i]);
        out[i] = v;
        i += 1;
    }
    assert(out@ =~= add_seq(lhs@, rhs@));
    out
}

/// Component-wise difference of two arrays of one length.
pub(crate) fn sub_arrays<T: Scalar, const N: usize>(lhs: &[T; N], rhs: &[T; N]) -> (r: [T; N])
    ensures
        r@ == sub_seq(lhs@, rhs@),
{
    let mut out = *lhs;
    let mut i: usize = 0;
    while i < N
        invariant
            0 <= i <= N,
            out@.len() == N,
            forall|j: int| 0 <= j < i ==> out@[j] == #[trigger] sub_seq(lhs@, rhs@)[j],
        decreases N - i,
    {
        let v = lhs[i].minus(rhs[i]);
        out[i] = v;
        i += 1;
    }
    assert(out@ =~= sub_seq(lhs@, rhs@));
    out
}

/// Every component of an array multiplied by `s`.
pub(crate) fn scale_array<T: Scalar, const N: usize>(lhs: &[T; N], s: T) -> (r: [T; N])
    ensures
        r@ == scale_seq(lhs@, s),
{
    let mut out = *lhs;
    let mut i: usize = 0;
    while i < N
        invariant
            0 <= i <= N,
            out@.len() == N,
            forall|j: int| 0 <= j < i ==> out@[j] == #[trigger] scale_seq(lhs@, s)[j],
        decreases N - i,
    {
        let v = lhs[i].times(s);
        out[i] = v;
        i += 1;
    }
    assert(out@ =~= scale_seq(lhs@, s));
    out
}

/// Sum of the component-wise products, accumulated from index 0 upwards
/// starting at zero.
fn dot_product<T: Zero, const N: usize>(lhs: &[T; N], rhs: &[T; N]) -> (r: T)
    ensures
        r == T::wrap(dot_sum(lhs@, rhs@)),
{
    let mut acc = T::zero();
    proof {
        T::lemma_wrap_val(acc);
    }
    let mut i: usize = 0;
    while i < N
        invariant
            0 <= i <= N,
            acc == T::wrap(dot_prefix(lhs@, rhs@, i as int)),
        decreases N - i,
    {
        let p = lhs[i].times(rhs[i]);
        proof {
            lemma_wrap_plus::<T>(
                dot_prefix(lhs@, rhs@, i as int),
                lhs@[i as int].val() * rhs@[i as int].val(),
            );
        }
        acc = acc.plus(p);
        i += 1;
    }
    acc
}

/// Adds two Vector2<T> together.
pub fn vec2_add<T: Scalar>(lhs: Vector2<T>, rhs: Vector2<T>) -> (r: Vector2<T>)
    ensures
        r@ == add_seq(lhs@, rhs@),
{
    add_arrays(&lhs, &rhs)
}

/// Adds two Vector3<T> together.
pub fn vec3_add<T: Scalar>(lhs: Vector3<T>, rhs: Vector3<T>) -> (r: Vector3<T>)
    ensures
        r@ == add_seq(lhs@, rhs@),
{
    add_arrays(&lhs, &rhs)
}

/// Adds two Vector4<T> together.
pub fn vec4_add<T: Scalar>(lhs: Vector4<T>, rhs: Vector4<T>) -> (r: Vector4<T>)
    ensures
        r@ == add_seq(lhs@, rhs@),
{
    add_arrays(&lhs, &rhs)
}

/// Subtracts a Vector2<T> from another.
pub fn vec2_sub<T: Scalar>(lhs: Vector2<T>, rhs: Vector2<T>) -> (r: Vector2<T>)
    ensures
        r@ == sub_seq(lhs@, rhs@),
{
    sub_arrays(&lhs, &rhs)
}

/// Subtracts a Vector3<T> from another.
pub fn vec3_sub<T: Scalar>(lhs: Vector3<T>, rhs: Vector3<T>) -> (r: Vector3<T>)
    ensures
        r@ == sub_seq(lhs@, rhs@),
{
    sub_arrays(&lhs, &rhs)
}

/// Subtracts a Vector4<T> from another.
pub fn vec4_sub<T: Scalar>(lhs: Vector4<T>, rhs: Vector4<T>) -> (r: Vector4<T>)
    ensures
        r@ == sub_seq(lhs@, rhs@),
{
    sub_arrays(&lhs, &rhs)
}

/// Multiplies a Vector2<T> by a scalar.
pub fn vec2_mul<T: Scalar>(lhs: Vector2<T>, rhs: T) -> (r: Vector2<T>)
    ensures
        r@ == scale_seq(lhs@, rhs),
{
    scale_array(&lhs, rhs)
}

/// Multiplies a Vector3<T> by a scalar.
pub fn vec3_mul<T: Scalar>(lhs: Vector3<T>, rhs: T) -> (r: Vector3<T>)
    ensures
        r@ == scale_seq(lhs@, rhs),
{
    scale_array(&lhs, rhs)
}

/// Multiplies a Vector4<T> by a scalar.
pub fn vec4_mul<T: Scalar>(lhs: Vector4<T>, rhs: T) -> (r: Vector4<T>)
    ensures
        r@ == scale_seq(lhs@, rhs),
{
    scale_array(&lhs, rhs)
}

/// Calculates the dot product of two Vector2<T>.
pub fn vec2_dot<T: Zero>(lhs: Vector2<T>, rhs: Vector2<T>) -> (r: T)
    ensures
        r == T::wrap(dot_sum(lhs@, rhs@)),
{
    dot_product(&lhs, &rhs)
}

/// Calculates the dot product of two Vector3<T>.
pub fn vec3_dot<T: Zero>(lhs: Vector3<T>, rhs: Vector3<T>) -> (r: T)
    ensures
        r == T::wrap(dot_sum(lhs@, rhs@)),
{
    dot_product(&lhs, &rhs)
}

/// Calculates the dot product of two Vector4<T>.
pub fn vec4_dot<T: Zero>(lhs: Vector4<T>, rhs: Vector4<T>) -> (r: T)
    ensures
        r == T::wrap(dot_sum(lhs@, rhs@)),
{
    dot_product(&lhs, &rhs)
}

/// Calculates the cross product of two Vector3<T>.
pub fn vec3_cross<T: Scalar>(lhs: Vector3<T>, rhs: Vector3<T>) -> (r: Vector3<T>)
    ensures
        r@ == cross_seq(lhs@, rhs@),
{
    let x = lhs[1].times(rhs[2]).minus(lhs[2].times(rhs[1]));
    let y = lhs[2].times(rhs[0]).minus(lhs[0].times(rhs[2]));
    let z = lhs[0].times(rhs[1]).minus(lhs[1].times(rhs[0]));
    proof {
        let (a, b) = (lhs@, rhs@);
        lemma_wrap_minus::<T>(a[1].val() * b[2].val(), a[2].val() * b[1].val());
        lemma_wrap_minus::<T>(a[2].val() * b[0].val(), a[0].val() * b[2].val());
        lemma_wrap_minus::<T>(a[0].val() * b[1].val(), a[1].val() * b[0].val());
    }
    let r = [x, y, z];
    assert(r@ =~= cross_seq(lhs@, rhs@));
    r
}

/// Subtracting `b` undoes adding `b`: `sub_seq(add_seq(a, b), b) == a`.
/// Vectors and matrices share this component-wise model, so the law holds
/// for every vector and matrix operation of this library alike.
pub proof fn lemma_add_sub_inverse<T: Scalar>(a: Seq<T>, b: Seq<T>)
    requires
        a.len() == b.len(),
    ensures
        sub_seq(add_seq(a, b), b) == a,
{
    assert forall|i: int| 0 <= i < a.len() implies #[trigger] sub_seq(add_seq(a, b), b)[i]
        == a[i] by {
        T::lemma_wrap_add(a[i].val() + b[i].val(), -b[i].val());
        T::lemma_wrap_val(a[i]);
    }
    assert(sub_seq(add_seq(a, b), b) =~= a);
}

/// The dot product is commutative: `dot(a, b) == dot(b, a)`.
pub proof fn lemma_dot_commutative<T: Scalar>(a: Seq<T>, b: Seq<T>)
    requires
        a.len() == b.len(),
    ensures
        dot_sum(a, b) == dot_sum(b, a),
        T::wrap(dot_sum(a, b)) == T::wrap(dot_sum(b, a)),
{
    assert forall|i: int| 0 <= i < a.len() implies (a[i].val() * b[i].val()) == #[trigger] (
    b[i].val() * a[i].val()) by {
        vstd::arithmetic::mul::lemma_mul_is_commutative(a[i].val(), b[i].val());
    }
    lemma_sum_ext(|i: int| a[i].val() * b[i].val(), |i: int| b[i].val() * a[i].val(), a.len() as int);
}

/// The cross product is anti-commutative: `cross(a, b)` is `cross(b, a)`
/// scaled by any value `s` that stands for -1.
pub proof fn lemma_cross_anticommutative<T: Scalar>(a: Seq<T>, b: Seq<T>, s: T)
    requires
        a.len() == 3,
        b.len() == 3,
        s.val() == -1,
    ensures
        cross_seq(a, b) == scale_seq(cross_seq(b, a), s),
{
    let (a0, a1, a2) = (a[0].val(), a[1].val(), a[2].val());
    let (b0, b1, b2) = (b[0].val(), b[1].val(), b[2].val());
    T::lemma_wrap_mul(b1 * a2 - b2 * a1, -1);
    T::lemma_wrap_mul(b2 * a0 - b0 * a2, -1);
    T::lemma_wrap_mul(b0 * a1 - b1 * a0, -1);
    assert((b1 * a2 - b2 * a1) * -1 == a1 * b2 - a2 * b1) by (nonlinear_arith);
    assert((b2 * a0 - b0 * a2) * -1 == a2 * b0 - a0 * b2) by (nonlinear_arith);
    assert((b0 * a1 - b1 * a0) * -1 == a0 * b1 - a1 * b0) by (nonlinear_arith);
    assert(cross_seq(a, b) =~= scale_seq(cross_seq(b, a), s));
}

/// The cross product of a vector with itself is the zero vector: every
/// component equals any value `z` that stands for 0.
pub proof fn lemma_cross_self_zero<T: Scalar>(a: Seq<T>, z: T)
    requires
        a.len() == 3,
        z.val() == 0,
    ensures
        cross_seq(a, a) == seq![z, z, z],
{
    let (a0, a1, a2) = (a[0].val(), a[1].val(), a[2].val());
    assert(a1 * a2 - a2 * a1 == 0 && a2 * a0 - a0 * a2 == 0 && a0 * a1 - a1 * a0 == 0)
        by (nonlinear_arith);
    T::lemma_wrap_val(z);
    assert(cross_seq(a, a) =~= seq![z, z, z]);
}

} // verus!
