use actor_game::actor::fixed::{Fixed, LIMIT, SCALE};

#[test]
fn from_int_scales_by_a_million() {
    assert_eq!(Fixed::from_int(3).raw(), 3_000_000);
    assert_eq!(Fixed::from_int(-7).raw(), -7_000_000);
    assert_eq!(Fixed::from_int(0), Fixed::zero());
    assert_eq!(Fixed::from_int(1), Fixed::one());
    assert_eq!(Fixed::one().raw(), SCALE);
}

#[test]
fn from_raw_clamps_to_the_limit() {
    assert_eq!(Fixed::from_raw(12_345).raw(), 12_345);
    assert_eq!(Fixed::from_raw(LIMIT).raw(), LIMIT);
    assert_eq!(Fixed::from_raw(LIMIT + 1).raw(), LIMIT);
    assert_eq!(Fixed::from_raw(i64::MAX).raw(), LIMIT);
    assert_eq!(Fixed::from_raw(-LIMIT - 1).raw(), -LIMIT);
    assert_eq!(Fixed::from_raw(i64::MIN).raw(), -LIMIT);
}

#[test]
fn addition_and_subtraction_are_exact_within_the_limit() {
    let a = Fixed::from_raw(1_500_000);
    let b = Fixed::from_raw(2_250_000);
    assert_eq!((a + b).raw(), 3_750_000);
    assert_eq!((a - b).raw(), -750_000);
    assert_eq!((b - a).raw(), 750_000);
}

#[test]
fn addition_and_subtraction_saturate() {
    let top = Fixed::from_raw(LIMIT);
    let bottom = Fixed::from_raw(-LIMIT);
    assert_eq!((top + Fixed::one()).raw(), LIMIT);
    assert_eq!((top + top).raw(), LIMIT);
    assert_eq!((bottom - Fixed::one()).raw(), -LIMIT);
    assert_eq!((bottom + bottom).raw(), -LIMIT);
    assert_eq!((top + bottom).raw(), 0);
}

#[test]
fn multiplication_rounds_toward_zero() {
    let third = Fixed::from_raw(333_333);
    assert_eq!((Fixed::from_int(3) * Fixed::from_raw(500_000)).raw(), 1_500_000);
    assert_eq!((third * third).raw(), 111_110);
    assert_eq!((third.neg() * third).raw(), -111_110);
    assert_eq!((Fixed::from_raw(1) * Fixed::from_raw(999_999)).raw(), 0);
    assert_eq!((Fixed::from_raw(-1) * Fixed::from_raw(999_999)).raw(), 0);
    assert_eq!((Fixed::from_raw(16_000) * Fixed::from_int(800)).raw(), 12_800_000);
}

#[test]
fn multiplication_saturates() {
    let big = Fixed::from_raw(LIMIT);
    assert_eq!((big * big).raw(), LIMIT);
    assert_eq!((big * big.neg()).raw(), -LIMIT);
    assert_eq!((big * Fixed::one()).raw(), LIMIT);
    assert_eq!((big * Fixed::zero()).raw(), 0);
}

#[test]
fn division_rounds_toward_zero() {
    assert_eq!((Fixed::from_int(1) / Fixed::from_int(3)).raw(), 333_333);
    assert_eq!((Fixed::from_int(-1) / Fixed::from_int(3)).raw(), -333_333);
    assert_eq!((Fixed::from_int(1) / Fixed::from_int(-3)).raw(), -333_333);
    assert_eq!((Fixed::from_int(-1) / Fixed::from_int(-3)).raw(), 333_333);
    assert_eq!((Fixed::from_int(3).neg() / Fixed::from_raw(500_000)).raw(), -6_000_000);
}

#[test]
fn division_by_zero_saturates_by_sign() {
    assert_eq!((Fixed::from_int(5) / Fixed::zero()).raw(), LIMIT);
    assert_eq!((Fixed::from_int(-5) / Fixed::zero()).raw(), -LIMIT);
    assert_eq!((Fixed::zero() / Fixed::zero()).raw(), 0);
}

#[test]
fn division_saturates() {
    let big = Fixed::from_raw(LIMIT);
    assert_eq!((big / Fixed::from_raw(1)).raw(), LIMIT);
    assert_eq!((big / Fixed::from_raw(-1)).raw(), -LIMIT);
}

#[test]
fn negation_flips_the_sign() {
    assert_eq!(Fixed::from_raw(42).neg().raw(), -42);
    assert_eq!(Fixed::from_raw(-LIMIT).neg().raw(), LIMIT);
    assert_eq!(Fixed::zero().neg(), Fixed::zero());
}

#[test]
fn comparisons_follow_the_raw_values() {
    let a = Fixed::from_raw(-5);
    let b = Fixed::from_raw(7);
    assert!(a.lt(b));
    assert!(a.le(b));
    assert!(a.le(a));
    assert!(!a.lt(a));
    assert!(b.gt(a));
    assert!(b.ge(a));
    assert!(b.ge(b));
    assert!(!b.gt(b));
    assert!(!b.lt(a));
    assert!(!a.ge(b));
}
