use rlox::numbers::{double_eq, double_le, double_lt, double_neg, double_text};

#[test]
fn canonical_text_matches_the_shortest_reading() {
    assert_eq!(double_text(1f64.to_bits()), "1");
    assert_eq!(double_text(123f64.to_bits()), "123");
    assert_eq!(double_text(123.45f64.to_bits()), "123.45");
    assert_eq!(double_text(2.5f64.to_bits()), "2.5");
    assert_eq!(double_text(0.1f64.to_bits()), "0.1");
    assert_eq!(double_text((0.1f64 + 0.2f64).to_bits()), "0.30000000000000004");
    assert_eq!(double_text(0f64.to_bits()), "0");
    assert_eq!(double_text((-0f64).to_bits()), "-0");
    assert_eq!(double_text((-3f64).to_bits()), "-3");
    assert_eq!(double_text(f64::INFINITY.to_bits()), "inf");
    assert_eq!(double_text(f64::NEG_INFINITY.to_bits()), "-inf");
    assert_eq!(double_text(f64::NAN.to_bits()), "NaN");
    assert_eq!(double_text(1000000f64.to_bits()), "1000000");
    assert_eq!(double_text(0.00001f64.to_bits()), "0.00001");
}

#[test]
fn wide_values_stay_in_plain_decimal() {
    assert_eq!(double_text(1e20f64.to_bits()), "100000000000000000000");
    assert_eq!(double_text(1e17f64.to_bits()), "100000000000000000");
    assert_eq!(double_text(123456789012345680f64.to_bits()), "123456789012345680");
    // Far beyond the integers a double holds exactly, the plain decimal
    // rendering carries the value's own digits; it never falls into
    // scientific notation and always reads back as the same value.
    let text = double_text(1.5e300f64.to_bits());
    assert!(!text.contains('E'));
    assert_eq!(text.len(), 301);
    assert!(text.starts_with("15"));
    assert_eq!(text.parse::<f64>().unwrap(), 1.5e300);
}

#[test]
fn comparisons_follow_ieee_ordering() {
    let one = 1f64.to_bits();
    let two = 2f64.to_bits();
    let minus_one = (-1f64).to_bits();
    let nan = f64::NAN.to_bits();
    assert!(double_lt(one, two));
    assert!(!double_lt(two, one));
    assert!(double_lt(minus_one, one));
    assert!(double_le(one, one));
    assert!(!double_lt(nan, one));
    assert!(!double_le(nan, nan));
    assert!(double_lt(f64::NEG_INFINITY.to_bits(), minus_one));
    assert!(double_lt(two, f64::INFINITY.to_bits()));
}

#[test]
fn the_two_zeros_are_equal_and_nan_is_not_even_itself() {
    let pos = 0f64.to_bits();
    let neg = (-0f64).to_bits();
    let nan = f64::NAN.to_bits();
    assert!(double_eq(pos, neg));
    assert!(!double_lt(neg, pos));
    assert!(!double_lt(pos, neg));
    assert!(!double_eq(nan, nan));
    assert!(double_eq(1f64.to_bits(), 1f64.to_bits()));
    assert!(!double_eq(1f64.to_bits(), 2f64.to_bits()));
}

#[test]
fn negation_flips_the_sign_bit() {
    assert_eq!(double_neg(1f64.to_bits()), (-1f64).to_bits());
    assert_eq!(double_neg((-2.5f64).to_bits()), 2.5f64.to_bits());
    assert_eq!(double_neg(0f64.to_bits()), (-0f64).to_bits());
}
