use pathtracer::scalar::{Scalar, SCALE};
use rand::rngs::SmallRng;
use rand::SeedableRng;

fn fixed(x: f64) -> Scalar {
    Scalar::from_raw((x * 65536.0).round() as i64)
}

#[test]
fn constructors_give_exact_values() {
    assert_eq!(SCALE, 65536);
    assert_eq!(Scalar::zero().raw(), 0);
    assert_eq!(Scalar::one().raw(), 65536);
    assert_eq!(Scalar::max_value().raw(), i64::MAX);
    assert_eq!(Scalar::from_int(-3).raw(), -3 * 65536);
    assert_eq!(Scalar::from_int(i64::MAX).raw(), i64::MAX);
    assert_eq!(Scalar::from_int(i64::MIN).raw(), i64::MIN);
    assert_eq!(Scalar::from_raw(-17).raw(), -17);
    assert_eq!(Scalar::saturate(1i128 << 100).raw(), i64::MAX);
    assert_eq!(Scalar::saturate(-(1i128 << 100)).raw(), i64::MIN);
    assert_eq!(Scalar::saturate(-5).raw(), -5);
}

#[test]
fn ratios_round_toward_zero() {
    assert_eq!(Scalar::from_ratio(1, 2).raw(), 32768);
    assert_eq!(Scalar::from_ratio(7, 10).raw(), 45875);
    assert_eq!(Scalar::from_ratio(-7, 10).raw(), -45875);
    assert_eq!(Scalar::from_ratio(7, -10).raw(), -45875);
    assert_eq!(Scalar::from_ratio(16, 9).raw(), 116508);
    assert_eq!(Scalar::from_ratio(1, 0).raw(), i64::MAX);
    assert_eq!(Scalar::from_ratio(-1, 0).raw(), i64::MIN);
    assert_eq!(Scalar::from_ratio(0, 0).raw(), 0);
}

#[test]
fn sums_and_differences_saturate() {
    assert_eq!(fixed(1.5) + fixed(2.25), fixed(3.75));
    assert_eq!(fixed(1.5) - fixed(2.25), fixed(-0.75));
    assert_eq!(-fixed(1.5), fixed(-1.5));
    assert_eq!((Scalar::max_value() + Scalar::one()).raw(), i64::MAX);
    assert_eq!((Scalar::from_raw(i64::MIN) - Scalar::one()).raw(), i64::MIN);
    assert_eq!((-Scalar::from_raw(i64::MIN)).raw(), i64::MAX);
}

#[test]
fn products_and_quotients_round_toward_zero() {
    assert_eq!(fixed(1.5) * fixed(2.25), fixed(3.375));
    assert_eq!(fixed(-1.5) * fixed(2.25), fixed(-3.375));
    assert_eq!((Scalar::from_raw(3) * fixed(0.5)).raw(), 1);
    assert_eq!((Scalar::from_raw(-3) * fixed(0.5)).raw(), -1);
    assert_eq!(fixed(3.0) / fixed(4.0), fixed(0.75));
    assert_eq!(fixed(-3.0) / fixed(4.0), fixed(-0.75));
    assert_eq!(fixed(3.0) / fixed(-4.0), fixed(-0.75));
    assert_eq!((Scalar::one() / fixed(3.0)).raw(), 21845);
    assert_eq!((-Scalar::one() / fixed(3.0)).raw(), -21845);
    assert_eq!((Scalar::max_value() * fixed(2.0)).raw(), i64::MAX);
}

#[test]
fn dividing_by_zero_saturates() {
    assert_eq!((Scalar::one() / Scalar::zero()).raw(), i64::MAX);
    assert_eq!((-Scalar::one() / Scalar::zero()).raw(), i64::MIN);
    assert_eq!((Scalar::zero() / Scalar::zero()).raw(), 0);
}

#[test]
fn square_roots_round_down() {
    assert_eq!(fixed(4.0).sqrt(), fixed(2.0));
    assert_eq!(fixed(0.25).sqrt(), fixed(0.5));
    assert_eq!(fixed(2.0).sqrt().raw(), 92681);
    assert_eq!(Scalar::zero().sqrt().raw(), 0);
    assert_eq!(fixed(-4.0).sqrt().raw(), 0);
    assert_eq!(Scalar::max_value().sqrt().raw(), 777472127993);
}

#[test]
fn comparisons_follow_the_values() {
    assert!(fixed(1.5) < fixed(2.0));
    assert!(fixed(-1.5) <= fixed(-1.5));
    assert!(fixed(2.0) > fixed(-3.0));
    assert!(fixed(2.0) >= fixed(2.0));
    assert!(!(fixed(2.0) < fixed(2.0)));
    assert_eq!(fixed(1.5).min(fixed(2.0)), fixed(1.5));
    assert_eq!(fixed(2.5).min(fixed(2.0)), fixed(2.0));
    assert_eq!(fixed(2.5).clamp(fixed(0.0), fixed(1.0)), fixed(1.0));
    assert_eq!(fixed(-2.5).clamp(fixed(0.0), fixed(1.0)), fixed(0.0));
    assert_eq!(fixed(0.5).clamp(fixed(0.0), fixed(1.0)), fixed(0.5));
}

#[test]
fn random_draws_lie_in_the_unit_interval() {
    let mut rng = SmallRng::seed_from_u64(3);
    let first = Scalar::random(&mut rng);
    let mut distinct = false;
    for _ in 0..500 {
        let draw = Scalar::random(&mut rng);
        assert!(0 <= draw.raw() && draw.raw() < 65536);
        if draw != first {
            distinct = true;
        }
    }
    assert!(distinct);
}
