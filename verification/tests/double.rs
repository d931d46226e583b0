use bandits::double::{Double, INFINITY_BITS, ONE_BITS, SIGN_BIT};
use std::cmp::Ordering;

fn d(x: f64) -> Double {
    Double::from_bits(x.to_bits())
}

fn f(x: Double) -> f64 {
    f64::from_bits(x.to_bits())
}

fn samples() -> Vec<f64> {
    vec![
        0.0,
        -0.0,
        1.0,
        -1.0,
        0.5,
        -0.5,
        1e-6,
        -1e-6,
        0.07,
        1234.5678,
        -1234.5678,
        f64::MIN_POSITIVE,
        -f64::MIN_POSITIVE,
        5e-324,
        -5e-324,
        f64::MAX,
        f64::MIN,
        f64::INFINITY,
        f64::NEG_INFINITY,
        f64::NAN,
        -f64::NAN,
        f64::from_bits(0x7ff0_0000_0000_0001),
        f64::from_bits(0xfff8_0000_0000_0001),
        f64::EPSILON,
        1.0 + f64::EPSILON,
    ]
}

#[test]
fn constants_are_the_bit_patterns_they_name() {
    assert_eq!(ONE_BITS, 1.0f64.to_bits());
    assert_eq!(INFINITY_BITS, f64::INFINITY.to_bits());
    assert_eq!(SIGN_BIT, (-0.0f64).to_bits());
    assert_eq!(f(Double::zero()), 0.0);
    assert!(f(Double::zero()).is_sign_positive());
    assert_eq!(f(Double::one()), 1.0);
}

#[test]
fn bits_go_in_and_out_unchanged() {
    for x in samples() {
        assert_eq!(d(x).to_bits(), x.to_bits());
        assert_eq!(d(x).bits, x.to_bits());
    }
}

#[test]
fn is_nan_agrees_with_the_hardware() {
    for x in samples() {
        assert_eq!(d(x).is_nan(), x.is_nan(), "{x:?}");
    }
}

#[test]
fn numeric_order_agrees_with_the_hardware() {
    for a in samples() {
        for b in samples() {
            assert_eq!(d(a).lt(d(b)), a < b, "{a:?} < {b:?}");
            assert_eq!(d(a).gt(d(b)), a > b, "{a:?} > {b:?}");
        }
    }
}

#[test]
fn total_order_agrees_with_the_standard_library() {
    for a in samples() {
        for b in samples() {
            assert_eq!(
                d(a).total_le(d(b)),
                a.total_cmp(&b) != Ordering::Greater,
                "{a:?} <= {b:?}"
            );
        }
    }
}

#[test]
fn zeros_are_equal_in_number_and_ordered_in_total() {
    assert!(!d(-0.0).lt(d(0.0)));
    assert!(!d(0.0).lt(d(-0.0)));
    assert!(d(-0.0).total_le(d(0.0)));
    assert!(!d(0.0).total_le(d(-0.0)));
    assert!(d(0.0) != d(-0.0));
}

#[test]
fn max_keeps_numbers_over_nans_and_the_first_of_equals() {
    for a in samples() {
        for b in samples() {
            let larger = d(a).max(d(b));
            if a.is_nan() {
                assert_eq!(larger, d(b));
            } else if b.is_nan() {
                assert_eq!(larger, d(a));
            } else if a < b {
                assert_eq!(larger, d(b));
            } else {
                assert_eq!(larger, d(a));
            }
            if !a.is_nan() && !b.is_nan() {
                assert_eq!(f(larger), a.max(b));
            }
        }
    }
    assert_eq!(f(d(0.07).max(d(0.01))), 0.07);
    assert_eq!(f(d(-0.03).max(d(0.01))), 0.01);
}
