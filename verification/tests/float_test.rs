//! The bit-pattern arithmetic of `float`, held against the machine's own
//! floating point.

use e3dc_mqtt_rs::float::{same_list, Float32, Float64, EPSILON_BITS, EPSILON_BITS_32, TEN_BITS};

fn f(value: f64) -> Float64 {
    Float64::from_bits(value.to_bits())
}

fn back(value: Float64) -> f64 {
    f64::from_bits(value.bits)
}

/// A fixed sequence of well-mixed 64-bit patterns.
fn patterns(count: usize) -> Vec<u64> {
    let mut state: u64 = 0x9E37_79B9_7F4A_7C15;
    let mut out = Vec::with_capacity(count);
    for _ in 0..count {
        state ^= state << 13;
        state ^= state >> 7;
        state ^= state << 17;
        out.push(state);
    }
    out
}

fn interesting_doubles() -> Vec<f64> {
    let mut values = vec![
        0.0,
        -0.0,
        1.0,
        -1.0,
        0.5,
        0.999_999_999_999_999_9,
        1e-10,
        -1e-10,
        0.99e-10,
        1.01e-10,
        9.9,
        10.0,
        12.0,
        13.5,
        4_503_599_627_370_496.0,
        9_007_199_254_740_992.0,
        9_007_199_254_740_993.0,
        18_446_744_073_709_551_615.0,
        18_446_744_073_709_549_568.0,
        36_893_488_147_419_103_232.0,
        f64::MAX,
        f64::MIN,
        f64::MIN_POSITIVE,
        5e-324,
        f64::INFINITY,
        f64::NEG_INFINITY,
        f64::NAN,
        -f64::NAN,
    ];
    for bits in patterns(20_000) {
        values.push(f64::from_bits(bits));
    }
    values
}

#[test]
fn constants_are_the_patterns_of_their_numbers() {
    assert_eq!(TEN_BITS, 10.0_f64.to_bits());
    assert_eq!(EPSILON_BITS, 1e-10_f64.to_bits());
    assert_eq!(EPSILON_BITS_32, 1e-10_f32.to_bits());
    assert_eq!(e3dc_mqtt_rs::float::ONE_BITS, 1.0_f64.to_bits());
    assert_eq!(e3dc_mqtt_rs::float::TWO_POW_64_BITS, (u64::MAX as f64).to_bits());
    assert_eq!(e3dc_mqtt_rs::float::INFINITY_BITS, f64::INFINITY.to_bits());
    assert_eq!(e3dc_mqtt_rs::float::INFINITY_BITS_32, f32::INFINITY.to_bits());
    assert!(f64::from_bits(e3dc_mqtt_rs::float::NAN_BITS).is_nan());
}

#[test]
fn classification_agrees_with_the_machine() {
    for value in interesting_doubles() {
        let v = f(value);
        assert_eq!(v.is_nan(), value.is_nan(), "{value:?}");
        assert_eq!(v.is_finite(), value.is_finite(), "{value:?}");
        assert_eq!(v.is_zero(), value == 0.0, "{value:?}");
        assert_eq!(v.is_negative(), value.is_sign_negative(), "{value:?}");
        assert_eq!(v.abs().bits, value.abs().to_bits(), "{value:?}");
        assert_eq!(v.neg().bits, (-value).to_bits(), "{value:?}");
        assert_eq!(v.is_truthy(), value.abs() >= 1e-10, "{value:?}");
    }
}

#[test]
fn order_and_equality_agree_with_the_machine() {
    let values = interesting_doubles();
    let some: Vec<f64> = values.iter().copied().take(400).collect();
    for a in &some {
        for b in &some {
            assert_eq!(f(*a).ge(f(*b)), a >= b, "{a:?} >= {b:?}");
            assert_eq!(f(*a).same(f(*b)), a == b, "{a:?} == {b:?}");
        }
    }
    assert!(f(0.0).same(f(-0.0)));
    assert!(!f(f64::NAN).same(f(f64::NAN)));
    assert!(f(10.0).ge(f(10.0)));
    assert!(!f(9.9).ge(f(10.0)));
}

#[test]
fn lists_are_equal_only_as_a_whole() {
    let a = vec![f(1.0), f(0.0), f(2.5)];
    let b = vec![f(1.0), f(-0.0), f(2.5)];
    assert!(same_list(&a, &b));
    assert!(!same_list(&a, &vec![f(1.0), f(0.0)]));
    assert!(!same_list(&a, &vec![f(1.0), f(0.0), f(2.6)]));
    assert!(!same_list(&vec![f(f64::NAN)], &vec![f(f64::NAN)]));
    assert!(same_list(&Vec::new(), &Vec::new()));
}

#[test]
fn unsigned_integers_convert_as_the_machine_converts_them() {
    let mut samples: Vec<u64> = vec![0, 1, 2, 3, 255, 65_535, u32::MAX as u64, u64::MAX, u64::MAX - 1];
    for shift in 0..64 {
        let p = 1u64 << shift;
        for delta in 0..4 {
            samples.push(p.wrapping_add(delta));
            samples.push(p.wrapping_sub(delta));
            samples.push((p | (p >> 1)).wrapping_add(delta));
            samples.push((p | (p >> 53)).wrapping_add(delta));
            samples.push((p | (p >> 54)).wrapping_sub(delta));
        }
    }
    for bits in patterns(200_000) {
        samples.push(bits);
        samples.push(bits >> (bits % 64));
    }
    for n in samples {
        assert_eq!(Float64::from_unsigned(n).bits, (n as f64).to_bits(), "{n}");
    }
    assert_eq!(back(Float64::from_unsigned(9_007_199_254_740_993)), 9_007_199_254_740_992.0);
    assert_eq!(back(Float64::from_unsigned(9_007_199_254_740_995)), 9_007_199_254_740_996.0);
}

#[test]
fn signed_integers_convert_as_the_machine_converts_them() {
    let mut samples: Vec<i64> = vec![0, 1, -1, i64::MAX, i64::MIN, i64::MIN + 1, -9_007_199_254_740_993];
    for bits in patterns(200_000) {
        samples.push(bits as i64);
        samples.push((bits as i64) >> (bits % 64));
    }
    for n in samples {
        assert_eq!(Float64::from_signed(n).bits, (n as f64).to_bits(), "{n}");
    }
    assert_eq!(back(Float64::from_bool(true)), 1.0);
    assert_eq!(back(Float64::from_bool(false)), 0.0);
}

#[test]
fn single_precision_widens_without_loss() {
    let mut samples: Vec<u32> = vec![
        0,
        0x8000_0000,
        1,
        2,
        3,
        0x007F_FFFF,
        0x0080_0000,
        0x0040_0000,
        0x7F7F_FFFF,
        0x7F80_0000,
        0xFF80_0000,
        0x3F80_0000,
        1.1_f32.to_bits(),
        1e-10_f32.to_bits(),
        1e-40_f32.to_bits(),
    ];
    for bits in patterns(300_000) {
        samples.push(bits as u32);
        samples.push((bits >> 32) as u32);
        samples.push((bits as u32) & 0x807F_FFFF);
    }
    for bits in samples {
        let narrow = f32::from_bits(bits);
        let wide = Float32::from_bits(bits).widen();
        if narrow.is_nan() {
            assert!(back(wide).is_nan(), "{bits:#x}");
            assert_eq!(wide.is_negative(), narrow.is_sign_negative(), "{bits:#x}");
        } else {
            assert_eq!(wide.bits, (narrow as f64).to_bits(), "{bits:#x}");
        }
        assert_eq!(Float32::from_bits(bits).is_truthy(), narrow.abs() >= 1e-10_f32, "{bits:#x}");
    }
}

#[test]
fn numbers_convert_to_unsigned_as_the_machine_converts_them() {
    for value in interesting_doubles() {
        // Two to the power 64 is one more than the largest `u64`: it is refused too.
        let refused = !value.is_finite() || value < 0.0 || value >= u64::MAX as f64;
        let got = f(value).to_unsigned();
        if refused {
            assert_eq!(got, None, "{value:?}");
        } else {
            assert_eq!(got, Some(value as u64), "{value:?}");
        }
    }
    assert_eq!(f(-0.0).to_unsigned(), Some(0));
    assert_eq!(f(0.9).to_unsigned(), Some(0));
    assert_eq!(f(1.9).to_unsigned(), Some(1));
    assert_eq!(f(42.0).to_unsigned(), Some(42));
    assert_eq!(f(-1.0).to_unsigned(), None);
    assert_eq!(f(-1e-300).to_unsigned(), None);
    assert_eq!(f(18_446_744_073_709_551_616.0).to_unsigned(), None);
    assert_eq!(f(18_446_744_073_709_549_568.0).to_unsigned(), Some(18_446_744_073_709_549_568));
    assert_eq!(f(36_893_488_147_419_103_232.0).to_unsigned(), None);
    assert_eq!(f(f64::NAN).to_unsigned(), None);
    assert_eq!(f(f64::INFINITY).to_unsigned(), None);
}
