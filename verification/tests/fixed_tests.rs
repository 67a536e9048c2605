//! Fixed-point scalar arithmetic.

use hexterra::fixed::Fx;

#[test]
fn construction_and_sums() {
    assert_eq!(Fx::zero().raw, 0);
    assert_eq!(Fx::from_raw(123).raw, 123);
    assert_eq!(Fx::from_units(-3).raw, -3_000_000);
    let a = Fx::from_units(2);
    let b = Fx::from_raw(500_000);
    assert_eq!(a.add_to(b).raw, 2_500_000);
    assert_eq!(a.sub_from(b).raw, 1_500_000);
    assert_eq!(b.neg().raw, -500_000);
}

#[test]
fn multiplication_truncates_toward_zero() {
    let half = Fx::from_raw(500_000);
    let three = Fx::from_units(3);
    assert_eq!(three.mul_by(half).raw, 1_500_000);
    assert_eq!(three.neg().mul_by(half).raw, -1_500_000);
    // 1/3 of 1/1000000 truncates to zero from either side.
    let tiny = Fx::from_raw(1);
    let third = Fx::from_raw(333_333);
    assert_eq!(tiny.mul_by(third).raw, 0);
    assert_eq!(tiny.neg().mul_by(third).raw, 0);
}

#[test]
fn division_matches_ratio() {
    let six = Fx::from_units(6);
    let four = Fx::from_units(4);
    assert_eq!(six.div_by(four).raw, 1_500_000);
    assert_eq!(six.neg().div_by(four).raw, -1_500_000);
    assert_eq!(six.div_by(four.neg()).raw, -1_500_000);
    assert_eq!(six.neg().div_by(four.neg()).raw, 1_500_000);
}

#[test]
fn clamping() {
    let lo = Fx::from_units(-1);
    let hi = Fx::from_units(1);
    assert_eq!(Fx::from_units(5).clamp_to(lo, hi), hi);
    assert_eq!(Fx::from_units(-5).clamp_to(lo, hi), lo);
    assert_eq!(Fx::from_raw(42).clamp_to(lo, hi).raw, 42);
}
