use qnet_core::binary64::{optional_equals, Binary64, Order};

fn b(x: f64) -> Binary64 {
    Binary64 { bits: x.to_bits() }
}

fn samples() -> Vec<f64> {
    vec![
        0.0,
        -0.0,
        1.0,
        -1.0,
        0.5,
        2.5,
        -2.5,
        0.92,
        f64::MIN_POSITIVE,
        -f64::MIN_POSITIVE,
        f64::from_bits(1),
        f64::MAX,
        f64::MIN,
        f64::INFINITY,
        f64::NEG_INFINITY,
        f64::NAN,
        -f64::NAN,
        f64::from_bits(0x7FF0_0000_0000_0001),
        f64::from_bits(0xFFF0_0000_0000_0001),
    ]
}

#[test]
fn comparisons_agree_with_hardware_comparisons() {
    for a in samples() {
        for c in samples() {
            assert_eq!(b(a).equals(&b(c)), a == c, "{:?} == {:?}", a, c);
            assert_eq!(b(a).less_than(&b(c)), a < c, "{:?} < {:?}", a, c);
            assert_eq!(b(a).less_or_equal(&b(c)), a <= c, "{:?} <= {:?}", a, c);
            let expected = match a.partial_cmp(&c) {
                Some(std::cmp::Ordering::Less) => Some(Order::Less),
                Some(std::cmp::Ordering::Equal) => Some(Order::Equal),
                Some(std::cmp::Ordering::Greater) => Some(Order::Greater),
                None => None,
            };
            assert_eq!(b(a).compare(&b(c)), expected, "{:?} cmp {:?}", a, c);
        }
    }
}

#[test]
fn nan_detection_agrees_with_hardware() {
    for a in samples() {
        assert_eq!(b(a).is_nan(), a.is_nan(), "{:?}", a);
    }
}

#[test]
fn zero_and_one_are_their_encodings() {
    assert_eq!(Binary64::zero().bits, 0.0f64.to_bits());
    assert_eq!(Binary64::one().bits, 1.0f64.to_bits());
}

#[test]
fn the_two_zeros_are_equal_and_nan_is_not_equal_to_itself() {
    assert!(b(0.0).equals(&b(-0.0)));
    assert!(!b(f64::NAN).equals(&b(f64::NAN)));
    assert!(!b(f64::NAN).less_or_equal(&b(f64::NAN)));
}

#[test]
fn optional_equality_follows_option_of_f64() {
    let values = vec![None, Some(0.0), Some(-0.0), Some(1.5), Some(f64::NAN)];
    for x in &values {
        for y in &values {
            let bx = x.map(b);
            let by = y.map(b);
            assert_eq!(optional_equals(&bx, &by), x == y, "{:?} == {:?}", x, y);
        }
    }
}
