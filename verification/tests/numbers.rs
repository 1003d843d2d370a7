use ecobee_hap::accessory::{hvac_state, mode_name, mode_value};
use ecobee_hap::double::Double;
use ecobee_hap::json::{Number, Value};

fn native(c: f64) -> f64 {
    (c * 10.0).round() / 10.0
}

fn double(c: f64) -> Double {
    Double { bits: c.to_bits() }
}

fn tenths(c: f64) -> f64 {
    f64::from_bits(double(c).tenths().bits)
}

#[test]
fn tenths_agrees_with_native_arithmetic() {
    let mut x: u64 = 0x9E37_79B9_7F4A_7C15;
    for _ in 0..400_000 {
        x ^= x << 13;
        x ^= x >> 7;
        x ^= x << 17;
        let c = f64::from_bits(x);
        if c.is_finite() {
            assert_eq!(Double { bits: x }.tenths().bits, native(c).to_bits(), "{c:e}");
            assert_eq!(Double { bits: x }.whole(), c as i64);
            assert_eq!(Double { bits: x }.is_positive(), c > 0.0);
        }
        let d = ((x >> 40) as f64 - 8388608.0) / 1024.0;
        assert_eq!(double(d).tenths().bits, native(d).to_bits(), "{d:e}");
        assert_eq!(double(d).whole(), d as i64);
        assert_eq!(Double::from_unsigned(x).bits, (x as f64).to_bits());
        assert_eq!(Double::from_signed(x as i64).bits, ((x as i64) as f64).to_bits());
    }
}

#[test]
fn a_temperature_is_told_in_tenths() {
    assert_eq!(tenths(21.54), 21.5);
    assert_eq!(tenths(21.56), 21.6);
    assert_eq!(tenths(-3.14159), -3.1);
    assert_eq!(tenths(0.04), 0.0);
    assert_eq!(tenths(100.0), 100.0);
}

#[test]
fn halves_are_rounded_away_from_zero() {
    assert_eq!(tenths(0.25), 0.3);
    assert_eq!(tenths(-0.25), -0.3);
    assert_eq!(tenths(20.75), 20.8);
}

#[test]
fn negative_zero_keeps_its_sign() {
    assert_eq!(double(-0.01).tenths().bits, (-0.0f64).to_bits());
    assert_eq!(double(-0.0).tenths().bits, (-0.0f64).to_bits());
}

#[test]
fn float_noise_is_not_a_change() {
    for n in 0..1000 {
        let exact = n as f64 / 10.0;
        assert_eq!(tenths(exact + 0.049), exact);
        if n > 0 {
            assert_eq!(tenths(exact - 0.049), exact);
        }
    }
}

#[test]
fn a_tenth_is_kept() {
    for n in 0..10_000 {
        let exact = n as f64 / 10.0;
        assert_eq!(tenths(exact), exact);
    }
}

#[test]
fn what_is_too_large_becomes_infinite() {
    assert_eq!(tenths(f64::MAX), f64::INFINITY);
    assert_eq!(tenths(-f64::MAX), -f64::INFINITY);
    assert_eq!(tenths(f64::INFINITY), f64::INFINITY);
    assert_eq!(Value::float(double(f64::MAX).tenths()), Value::Null);
    assert_eq!(Value::float(double(1.5)), Value::Number(Number::Float(double(1.5))));
}

#[test]
fn integers_are_exact_up_to_53_bits() {
    let limit: u64 = 1 << 53;
    for n in [0, 1, 2, 3, 80, limit - 2, limit - 1] {
        assert_eq!(Double::from_unsigned(n).whole(), n as i64);
        assert_eq!(Double::from_signed(-(n as i64)).whole(), -(n as i64));
    }
    assert_eq!(Double::from_unsigned(limit + 1).whole(), limit as i64);
    assert_eq!(f64::from_bits(Double::from_unsigned(u64::MAX).bits), 18446744073709551616.0);
    assert_eq!(f64::from_bits(Double::from_signed(i64::MIN).bits), -9223372036854775808.0);
}

#[test]
fn whole_drops_the_fraction_and_holds_to_the_range() {
    assert_eq!(double(2.9).whole(), 2);
    assert_eq!(double(-2.9).whole(), -2);
    assert_eq!(double(0.999).whole(), 0);
    assert_eq!(double(1e300).whole(), i64::MAX);
    assert_eq!(double(-1e300).whole(), i64::MIN);
    assert_eq!(double(f64::INFINITY).whole(), i64::MAX);
    assert_eq!(double(f64::NEG_INFINITY).whole(), i64::MIN);
    assert_eq!(double(f64::NAN).whole(), 0);
    assert_eq!(double(-9223372036854775808.0).whole(), i64::MIN);
}

#[test]
fn only_what_is_above_zero_is_positive() {
    assert!(double(1.0).is_positive());
    assert!(double(5e-324).is_positive());
    assert!(double(f64::INFINITY).is_positive());
    assert!(!double(0.0).is_positive());
    assert!(!double(-0.0).is_positive());
    assert!(!double(-1.0).is_positive());
    assert!(!double(f64::NAN).is_positive());
}

#[test]
fn every_state_number_has_a_word() {
    assert_eq!(mode_name(double(0.0)), "off");
    assert_eq!(mode_name(double(1.0)), "heat");
    assert_eq!(mode_name(double(2.0)), "cool");
    assert_eq!(mode_name(double(3.0)), "auto");
    assert_eq!(mode_name(double(3.7)), "auto");
    assert_eq!(mode_name(double(4.0)), "off");
    assert_eq!(mode_name(double(-1.0)), "off");
    for n in -3..9 {
        assert!(mode_value(mode_name(double(n as f64))).is_some());
    }
}

#[test]
fn modes_read_back() {
    for word in ["off", "heat", "cool", "auto"] {
        let n = mode_value(word).unwrap();
        assert_eq!(mode_name(Double::from_unsigned(n as u64)), word);
    }
    assert_eq!(mode_value("off"), Some(0));
    assert_eq!(mode_value("heat"), Some(1));
    assert_eq!(mode_value("cool"), Some(2));
    assert_eq!(mode_value("auto"), Some(3));
    assert_eq!(mode_value("Heat"), None);
    assert_eq!(mode_value(""), None);
}

#[test]
fn equipment_states_have_words() {
    assert_eq!(hvac_state(double(0.0)), "idle");
    assert_eq!(hvac_state(double(1.0)), "heating");
    assert_eq!(hvac_state(double(2.0)), "cooling");
    assert_eq!(hvac_state(double(3.0)), "idle");
}

#[test]
fn rounding_once_is_enough() {
    for n in -20_000..20_000 {
        let c = n as f64 / 17.0;
        assert_eq!(double(c).tenths().tenths(), double(c).tenths());
    }
    assert_eq!(tenths(21.5000001), 21.5);
    assert_eq!(tenths(21.5), 21.5);
}

#[test]
fn rounding_keeps_the_order() {
    let mut last = tenths(-1001.0);
    for n in -100_000..=100_000 {
        let next = tenths(n as f64 / 99.9);
        assert!(last <= next);
        last = next;
    }
    assert!(tenths(1e300) <= tenths(f64::MAX));
    assert!(tenths(-f64::MAX) <= tenths(-1e300));
    assert!(tenths(-0.0) <= tenths(0.0) && tenths(0.0) <= tenths(-0.0));
}

#[test]
fn rounding_moves_by_at_most_half_a_tenth() {
    for n in -100_000..=100_000 {
        let c = n as f64 / 100.1;
        assert!((tenths(c) - c).abs() <= 0.050000001, "{c}");
    }
    assert!((tenths(999.95) - 999.95).abs() > 0.049);
}
