use pathtracer::fixed::{Fx, RAW_MAX, SCALE};
use pathtracer::iter_util::IteratorExt;

#[test]
fn scale_is_sixteen_bits() {
    assert_eq!(SCALE, 65536);
    assert_eq!(RAW_MAX, 0x4000_0000_0000);
}

#[test]
fn from_int_and_add() {
    assert_eq!(Fx::from_int(3).raw, 3 * 65536);
    assert_eq!(Fx::from_int(-3).raw, -3 * 65536);
    assert_eq!(Fx::from_int(2).add(Fx::from_int(5)).raw, 7 * 65536);
    assert_eq!(Fx::from_int(2).sub(Fx::from_int(5)).raw, -3 * 65536);
    assert_eq!(Fx::from_int(2).neg().raw, -2 * 65536);
}

#[test]
fn mul_rounds_toward_zero() {
    // 1.5 * 1.5 == 2.25 exactly
    assert_eq!(Fx::from_raw(98304).mul(Fx::from_raw(98304)).raw, 147456);
    // the smallest positive values truncate to zero
    assert_eq!(Fx::from_raw(1).mul(Fx::from_raw(1)).raw, 0);
    // a negative product truncates toward zero, not downward
    assert_eq!(Fx::from_raw(-1).mul(Fx::from_raw(1)).raw, 0);
    assert_eq!(Fx::from_int(-2).mul(Fx::from_int(3)).raw, -6 * 65536);
}

#[test]
fn add_and_from_raw_saturate() {
    assert_eq!(Fx::from_raw(i64::MAX).raw, RAW_MAX);
    assert_eq!(Fx::from_raw(i64::MIN).raw, -RAW_MAX);
    assert_eq!(Fx::from_raw(RAW_MAX).add(Fx::one()).raw, RAW_MAX);
    assert_eq!(Fx::from_raw(-RAW_MAX).sub(Fx::one()).raw, -RAW_MAX);
    assert_eq!(Fx::from_int(i64::MAX).raw, RAW_MAX);
}

#[test]
fn div_exact_and_by_zero() {
    assert_eq!(Fx::from_int(1).div(Fx::from_int(2)).raw, 32768);
    assert_eq!(Fx::from_int(-1).div(Fx::from_int(2)).raw, -32768);
    // division by zero saturates with the numerator's sign
    assert_eq!(Fx::from_int(5).div(Fx::zero()).raw, RAW_MAX);
    assert_eq!(Fx::from_int(-5).div(Fx::zero()).raw, -RAW_MAX);
    assert_eq!(Fx::zero().div(Fx::zero()).raw, 0);
}

#[test]
fn sqrt_values() {
    assert_eq!(Fx::from_int(4).sqrt().raw, 2 * 65536);
    assert_eq!(Fx::from_int(9).sqrt().raw, 3 * 65536);
    // floor(sqrt(2) * 65536) == 92681
    assert_eq!(Fx::from_int(2).sqrt().raw, 92681);
    // negatives have no real root: the kernel answers zero
    assert_eq!(Fx::from_int(-4).sqrt().raw, 0);
    assert_eq!(Fx::zero().sqrt().raw, 0);
}

#[test]
fn comparisons_and_min_max() {
    let a = Fx::from_int(2);
    let b = Fx::from_int(3);
    assert!(a.lt(b));
    assert!(a.le(b));
    assert!(b.gt(a));
    assert!(b.ge(a));
    assert_eq!(a.min(b).raw, a.raw);
    assert_eq!(a.max(b).raw, b.raw);
    assert_eq!(a, Fx::from_int(2));
}

#[test]
fn try_reduce_folds() {
    let v: Vec<Option<i64>> = vec![Some(1), Some(2), Some(3)];
    assert_eq!(v.try_reduce(|a, b| a + b), Some(6));
}

#[test]
fn try_reduce_empty_is_none() {
    let v: Vec<Option<i64>> = vec![];
    assert_eq!(v.try_reduce(|a, b| a + b), None);
}

#[test]
fn try_reduce_first_absent_is_none() {
    let v: Vec<Option<i64>> = vec![None, Some(2)];
    assert_eq!(v.try_reduce(|a, b| a + b), None);
}

#[test]
fn try_reduce_stops_at_absent() {
    let v: Vec<Option<i64>> = vec![Some(1), None, Some(5)];
    assert_eq!(v.try_reduce(|a, b| a + b), Some(1));
}
