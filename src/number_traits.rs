//! Scalar kinds: the integer each value stands for, wrapping arithmetic,
//! and the additive and multiplicative identities.
use vstd::arithmetic::div_mod::{
    lemma_add_mod_noop,
    lemma_mod_add_multiples_vanish,
    lemma_mod_bound,
    lemma_mod_sub_multiples_vanish,
    lemma_mod_twice,
    lemma_mul_mod_noop_left,
    lemma_small_mod,
};
use vstd::prelude::*;

verus! {

/// The representative of `i` modulo `m` that lies in `[m/2 - m, m/2)`.
pub open spec fn wrap_mod(i: int, m: int) -> int {
    let r = i % m;
    if r >= m / 2 {
        r - m
    } else {
        r
    }
}

/// `wrap_mod` depends on `i % m` alone and keeps that remainder.
pub proof fn lemma_wrap_mod_rem(i: int, m: int)
    requires
        m > 0,
    ensures
        wrap_mod(i, m) % m == i % m,
        m / 2 - m <= wrap_mod(i, m) < m / 2,
{
    let r = i % m;
    lemma_mod_bound(i, m);
    lemma_mod_twice(i, m);
    if r >= m / 2 {
        lemma_mod_sub_multiples_vanish(r, m);
    }
}

/// Integers with the same remainder wrap to the same representative.
pub proof fn lemma_wrap_mod_congruent(i: int, j: int, m: int)
    requires
        m > 0,
        i % m == j % m,
    ensures
        wrap_mod(i, m) == wrap_mod(j, m),
{
}

/// Adding an integer commutes with wrapping.
pub proof fn lemma_wrap_mod_add(i: int, j: int, m: int)
    requires
        m > 0,
    ensures
        wrap_mod(wrap_mod(i, m) + j, m) == wrap_mod(i + j, m),
{
    let w = wrap_mod(i, m);
    lemma_wrap_mod_rem(i, m);
    lemma_add_mod_noop(w, j, m);
    lemma_add_mod_noop(i, j, m);
    lemma_wrap_mod_congruent(w + j, i + j, m);
}

/// Multiplying by an integer commutes with wrapping.
pub proof fn lemma_wrap_mod_mul(i: int, j: int, m: int)
    requires
        m > 0,
    ensures
        wrap_mod(wrap_mod(i, m) * j, m) == wrap_mod(i * j, m),
{
    let w = wrap_mod(i, m);
    lemma_wrap_mod_rem(i, m);
    lemma_mul_mod_noop_left(w, j, m);
    lemma_mul_mod_noop_left(i, j, m);
    lemma_wrap_mod_congruent(w * j, i * j, m);
}

/// An integer already in `[-m/2, m/2)` is its own representative.
pub proof fn lemma_wrap_mod_small(i: int, m: int)
    requires
        m > 0,
        m % 2 == 0,
        -(m / 2) <= i < m / 2,
    ensures
        wrap_mod(i, m) == i,
{
    if i < 0 {
        assert((i + m) % m == i + m) by {
            lemma_small_mod((i + m) as nat, m as nat);
        }
        lemma_mod_add_multiples_vanish(i, m);
    } else {
        lemma_small_mod(i as nat, m as nat);
    }
}

/// An integer scalar kind: each value stands for an integer, every integer
/// wraps around to one value of the kind, and the arithmetic is that of
/// the integers followed by the wrap.
pub trait Scalar: Copy + Sized {
    /// The integer this value stands for.
    spec fn val(self) -> int;

    /// The value of this kind that the integer `i` wraps around to.
    spec fn wrap(i: int) -> Self;

    /// Wrapping the integer a value stands for gives the value back.
    proof fn lemma_wrap_val(x: Self)
        ensures
            Self::wrap(x.val()) == x,
    ;

    /// Adding after a wrap gives what adding before it gives.
    proof fn lemma_wrap_add(i: int, j: int)
        ensures
            Self::wrap(Self::wrap(i).val() + j) == Self::wrap(i + j),
    ;

    /// Multiplying after a wrap gives what multiplying before it gives.
    proof fn lemma_wrap_mul(i: int, j: int)
        ensures
            Self::wrap(Self::wrap(i).val() * j) == Self::wrap(i * j),
    ;

    /// Sum, wrapping on overflow.
    fn plus(self, rhs: Self) -> (r: Self)
        ensures
            r == Self::wrap(self.val() + rhs.val()),
    ;

    /// Difference, wrapping on overflow.
    fn minus(self, rhs: Self) -> (r: Self)
        ensures
            r == Self::wrap(self.val() - rhs.val()),
    ;

    /// Product, wrapping on overflow.
    fn times(self, rhs: Self) -> (r: Self)
        ensures
            r == Self::wrap(self.val() * rhs.val()),
    ;
}

/// Integers that wrap alike still wrap alike after adding the same integer.
pub proof fn lemma_wrap_congr_add<T: Scalar>(x: int, y: int, z: int)
    requires
        T::wrap(x) == T::wrap(y),
    ensures
        T::wrap(x + z) == T::wrap(y + z),
        T::wrap(z + x) == T::wrap(z + y),
{
    T::lemma_wrap_add(x, z);
    T::lemma_wrap_add(y, z);
}

/// Integers that wrap alike still wrap alike after multiplying by the same integer.
pub proof fn lemma_wrap_congr_mul<T: Scalar>(x: int, y: int, z: int)
    requires
        T::wrap(x) == T::wrap(y),
    ensures
        T::wrap(x * z) == T::wrap(y * z),
        T::wrap(z * x) == T::wrap(z * y),
{
    T::lemma_wrap_mul(x, z);
    T::lemma_wrap_mul(y, z);
    assert(z * x == x * z && z * y == y * z) by (nonlinear_arith);
}

/// The integer a wrapped value stands for wraps back to that value.
pub proof fn lemma_wrap_idem<T: Scalar>(i: int)
    ensures
        T::wrap(T::wrap(i).val()) == T::wrap(i),
{
    T::lemma_wrap_add(i, 0);
}

/// Adding two wrapped values gives the wrapped sum of the integers.
pub proof fn lemma_wrap_plus<T: Scalar>(i: int, j: int)
    ensures
        T::wrap(T::wrap(i).val() + T::wrap(j).val()) == T::wrap(i + j),
{
    T::lemma_wrap_add(i, T::wrap(j).val());
    T::lemma_wrap_add(j, i);
}

/// Subtracting two wrapped values gives the wrapped difference of the integers.
pub proof fn lemma_wrap_minus<T: Scalar>(i: int, j: int)
    ensures
        T::wrap(T::wrap(i).val() - T::wrap(j).val()) == T::wrap(i - j),
{
    let k = T::wrap(j).val();
    T::lemma_wrap_add(i, -k);
    T::lemma_wrap_mul(j, -1);
    assert(k * -1 == -k && j * -1 == -j);
    lemma_wrap_congr_add::<T>(-k, -j, i);
}

/// Kinds with an additive identity.
pub trait Zero: Scalar {
    /// The value that stands for 0.
    fn zero() -> (r: Self)
        ensures
            r.val() == 0,
    ;
}

/// Kinds with a multiplicative identity.
pub trait One: Scalar {
    /// The value that stands for 1.
    fn one() -> (r: Self)
        ensures
            r.val() == 1,
    ;
}

/// A value standing for 0 is the additive identity and a value standing
/// for 1 the multiplicative identity, on either side: this is what `zero()`
/// and `one()` return, for every kind.
pub proof fn lemma_identities<T: Scalar>(x: T, z: T, o: T)
    requires
        z.val() == 0,
        o.val() == 1,
    ensures
        T::wrap(x.val() + z.val()) == x,
        T::wrap(z.val() + x.val()) == x,
        T::wrap(x.val() * o.val()) == x,
        T::wrap(o.val() * x.val()) == x,
{
    T::lemma_wrap_val(x);
}

/// Number of values of `i32`.
pub open spec fn i32_range() -> int {
    0x1_0000_0000
}

/// Number of values of `i64`.
pub open spec fn i64_range() -> int {
    0x1_0000_0000_0000_0000
}

impl Scalar for i32 {
    open spec fn val(self) -> int {
        self as int
    }

    open spec fn wrap(i: int) -> i32 {
        wrap_mod(i, i32_range()) as i32
    }

    proof fn lemma_wrap_val(x: i32) {
        lemma_wrap_mod_small(x as int, i32_range());
    }

    proof fn lemma_wrap_add(i: int, j: int) {
        lemma_wrap_mod_rem(i, i32_range());
        lemma_wrap_mod_add(i, j, i32_range());
    }

    proof fn lemma_wrap_mul(i: int, j: int) {
        lemma_wrap_mod_rem(i, i32_range());
        lemma_wrap_mod_mul(i, j, i32_range());
    }

    fn plus(self, rhs: i32) -> (r: i32) {
        let r = self.wrapping_add(rhs);
        proof {
            let s = self as int + rhs as int;
            if s > i32::MAX {
                lemma_wrap_mod_small(s - i32_range(), i32_range());
                lemma_mod_add_multiples_vanish(s - i32_range(), i32_range());
            } else if s < i32::MIN {
                lemma_wrap_mod_small(s + i32_range(), i32_range());
                lemma_mod_sub_multiples_vanish(s + i32_range(), i32_range());
            } else {
                lemma_wrap_mod_small(s, i32_range());
            }
        }
        r
    }

    fn minus(self, rhs: i32) -> (r: i32) {
        let r = self.wrapping_sub(rhs);
        proof {
            let s = self as int - rhs as int;
            if s > i32::MAX {
                lemma_wrap_mod_small(s - i32_range(), i32_range());
                lemma_mod_add_multiples_vanish(s - i32_range(), i32_range());
            } else if s < i32::MIN {
                lemma_wrap_mod_small(s + i32_range(), i32_range());
                lemma_mod_sub_multiples_vanish(s + i32_range(), i32_range());
            } else {
                lemma_wrap_mod_small(s, i32_range());
            }
        }
        r
    }

    fn times(self, rhs: i32) -> (r: i32) {
        self.wrapping_mul(rhs)
    }
}

impl Zero for i32 {
    fn zero() -> (r: i32) {
        0i32
    }
}

impl One for i32 {
    fn one() -> (r: i32) {
        1i32
    }
}

impl Scalar for i64 {
    open spec fn val(self) -> int {
        self as int
    }

    open spec fn wrap(i: int) -> i64 {
        wrap_mod(i, i64_range()) as i64
    }

    proof fn lemma_wrap_val(x: i64) {
        lemma_wrap_mod_small(x as int, i64_range());
    }

    proof fn lemma_wrap_add(i: int, j: int) {
        lemma_wrap_mod_rem(i, i64_range());
        lemma_wrap_mod_add(i, j, i64_range());
    }

    proof fn lemma_wrap_mul(i: int, j: int) {
        lemma_wrap_mod_rem(i, i64_range());
        lemma_wrap_mod_mul(i, j, i64_range());
    }

    fn plus(self, rhs: i64) -> (r: i64) {
        let r = self.wrapping_add(rhs);
        proof {
            let s = self as int + rhs as int;
            if s > i64::MAX {
                lemma_wrap_mod_small(s - i64_range(), i64_range());
                lemma_mod_add_multiples_vanish(s - i64_range(), i64_range());
            } else if s < i64::MIN {
                lemma_wrap_mod_small(s + i64_range(), i64_range());
                lemma_mod_sub_multiples_vanish(s + i64_range(), i64_range());
            } else {
                lemma_wrap_mod_small(s, i64_range());
            }
        }
        r
    }

    fn minus(self, rhs: i64) -> (r: i64) {
        let r = self.wrapping_sub(rhs);
        proof {
            let s = self as int - rhs as int;
            if s > i64::MAX {
                lemma_wrap_mod_small(s - i64_range(), i64_range());
                lemma_mod_add_multiples_vanish(s - i64_range(), i64_range());
            } else if s < i64::MIN {
                lemma_wrap_mod_small(s + i64_range(), i64_range());
                lemma_mod_sub_multiples_vanish(s + i64_range(), i64_range());
            } else {
                lemma_wrap_mod_small(s, i64_range());
            }
        }
        r
    }

    fn times(self, rhs: i64) -> (r: i64) {
        self.wrapping_mul(rhs)
    }
}

impl Zero for i64 {
    fn zero() -> (r: i64) {
        0i64
    }
}

impl One for i64 {
    fn one() -> (r: i64) {
        1i64
    }
}

} // verus!
