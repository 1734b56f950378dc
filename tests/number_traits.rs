use stones::number_traits::{One, Scalar, Zero};

#[test]
fn zero_and_one_values() {
    assert_eq!(<i32 as Zero>::zero(), 0);
    assert_eq!(<i64 as Zero>::zero(), 0);
    assert_eq!(<i32 as One>::one(), 1);
    assert_eq!(<i64 as One>::one(), 1);
}

#[test]
fn zero_and_one_are_identities() {
    for x in [0i32, 1, -1, 17, i32::MAX, i32::MIN] {
        assert_eq!(x.plus(i32::zero()), x);
        assert_eq!(i32::zero().plus(x), x);
        assert_eq!(x.times(i32::one()), x);
        assert_eq!(i32::one().times(x), x);
    }
    for x in [0i64, 1, -1, 17, i64::MAX, i64::MIN] {
        assert_eq!(x.plus(i64::zero()), x);
        assert_eq!(x.times(i64::one()), x);
    }
}

#[test]
fn scalar_arithmetic_wraps() {
    assert_eq!(i32::MAX.plus(1), i32::MIN);
    assert_eq!(i32::MIN.minus(1), i32::MAX);
    assert_eq!(65536i32.times(65536), 0);
    assert_eq!(i64::MAX.plus(1), i64::MIN);
    assert_eq!(i64::MIN.minus(1), i64::MAX);
    assert_eq!(4294967296i64.times(4294967296), 0);
}

#[test]
fn scalar_arithmetic_in_range() {
    assert_eq!(7i32.plus(-3), 4);
    assert_eq!(7i32.minus(10), -3);
    assert_eq!((-6i32).times(7), -42);
    assert_eq!(7i64.minus(10), -3);
    assert_eq!((-6i64).times(7), -42);
}
