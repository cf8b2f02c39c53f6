//! The numerals of `numeral`, held against the machine's own formatting.

use e3dc_mqtt_rs::float::{Float32, Float64};
use e3dc_mqtt_rs::natural::Natural;

fn text(value: f64) -> String {
    Float64::from_bits(value.to_bits()).to_text()
}

fn text32(value: f32) -> String {
    Float32::from_bits(value.to_bits()).to_text()
}

struct Patterns(u64);

impl Patterns {
    fn next(&mut self) -> u64 {
        self.0 ^= self.0 << 13;
        self.0 ^= self.0 >> 7;
        self.0 ^= self.0 << 17;
        self.0
    }
}

#[test]
fn numerals_are_short_and_plain() {
    assert_eq!(text(42.5), "42.5");
    assert_eq!(text(0.0), "0");
    assert_eq!(text(-0.0), "-0");
    assert_eq!(text(-123.456), "-123.456");
    assert_eq!(text(1.0), "1");
    assert_eq!(text(0.1), "0.1");
    assert_eq!(text(0.3), "0.3");
    assert_eq!(text(100.0), "100");
    assert_eq!(text(1e21), "1000000000000000000000");
    assert_eq!(text(1e-7), "0.0000001");
    assert_eq!(text(93.3), "93.3");
    assert_eq!(text(9_007_199_254_740_993.0), "9007199254740992");
    assert_eq!(text(87.456_001_281_738_28), "87.45600128173828");
    assert_eq!(text(f64::NAN), "NaN");
    assert_eq!(text(-f64::NAN), "NaN");
    assert_eq!(text(f64::INFINITY), "inf");
    assert_eq!(text(f64::NEG_INFINITY), "-inf");
    assert_eq!(text32(1.1), "1.1");
    assert_eq!(text32(16_777_216.0), "16777216");
    assert_eq!(text32(1e-10), "0.0000000001");
    assert_eq!(text32(-0.0), "-0");
    assert_eq!(text32(f32::NAN), "NaN");
    assert_eq!(text32(f32::NEG_INFINITY), "-inf");
}

#[test]
fn a_tie_between_two_shortest_numerals_goes_up() {
    assert_eq!(text(26_363_981_746_409.312), "26363981746409.313");
    assert_eq!(text(1_685_094_889_599_744.2), "1685094889599744.3");
    assert_eq!(text(223_692_119_297_042.62), "223692119297042.63");
}

#[test]
fn numerals_of_doubles_are_the_machines() {
    let mut patterns = Patterns(0x9E37_79B9_7F4A_7C15);
    let mut samples: Vec<f64> = vec![
        f64::MAX,
        f64::MIN,
        f64::MIN_POSITIVE,
        5e-324,
        1e-323,
        2.225_073_858_507_201e-308,
        4_503_599_627_370_496.0,
        9_007_199_254_740_992.0,
        0.999_999_999_999_999_9,
        1.000_000_000_000_000_2,
        1e15,
        1e16,
        1e17,
        1e22,
        1e23,
        9.5e-5,
        123_456_789.125,
    ];
    for power in -1074..1024 {
        samples.push(2_f64.powi(power));
        samples.push(2_f64.powi(power) * 1.5);
    }
    for power in -320..309 {
        samples.push(10_f64.powi(power));
    }
    for _ in 0..6_000 {
        samples.push(f64::from_bits(patterns.next()));
        // Subnormal numbers.
        samples.push(f64::from_bits(patterns.next() & 0x800F_FFFF_FFFF_FFFF));
        // Numbers of everyday size.
        let whole = (patterns.next() % 2_000_001) as f64 - 1_000_000.0;
        samples.push(whole / [1.0, 10.0, 100.0, 1_000.0, 8.0, 3.0][(patterns.next() % 6) as usize]);
        // Single precision readings, widened.
        samples.push(f32::from_bits(patterns.next() as u32) as f64);
    }
    for x in samples {
        assert_eq!(text(x), x.to_string(), "{:#x}", x.to_bits());
    }
}

#[test]
fn numerals_of_singles_are_the_machines() {
    let mut patterns = Patterns(0x2545_F491_4F6C_DD1D);
    let mut samples: Vec<f32> = vec![f32::MAX, f32::MIN, f32::MIN_POSITIVE, 1e-45, 9.8e-45, 0.3, 8.5, 3.4e38];
    for power in -149..128 {
        samples.push(2_f32.powi(power));
        samples.push(2_f32.powi(power) * 1.25);
    }
    for _ in 0..40_000 {
        samples.push(f32::from_bits(patterns.next() as u32));
        samples.push(f32::from_bits(patterns.next() as u32 & 0x807F_FFFF));
        samples.push(((patterns.next() % 200_001) as f32 - 100_000.0) / 100.0);
    }
    for x in samples {
        assert_eq!(text32(x), x.to_string(), "{:#x}", x.to_bits());
    }
}

fn number(n: &Natural) -> u128 {
    n.limbs.iter().rev().fold(0u128, |acc, limb| (acc << 32) | *limb as u128)
}

#[test]
fn large_numbers_add_subtract_and_compare() {
    let mut patterns = Patterns(0xD1B5_4A32_D192_ED03);
    for _ in 0..20_000 {
        let a = patterns.next() >> (patterns.next() % 64);
        let b = patterns.next() >> (patterns.next() % 64);
        let small = patterns.next() as u32;
        let (x, y) = (Natural::from_u64(a), Natural::from_u64(b));
        assert_eq!(number(&x), a as u128);
        assert_eq!(number(&x.plus(&y)), a as u128 + b as u128);
        assert_eq!(number(&x.times_small(small)), a as u128 * small as u128);
        assert_eq!(x.less_than(&y), a < b);
        assert!(!x.less_than(&x));
        if a >= b {
            assert_eq!(number(&x.minus(&y)), (a - b) as u128);
        }
        let wide = x.times_small(small).plus(&y);
        assert_eq!(number(&wide.minus(&y)), a as u128 * small as u128);
        assert_eq!(wide.less_than(&y), false);
        assert_eq!(y.less_than(&wide.plus(&Natural::from_u64(1))), true);
    }
    assert!(Natural::from_u64(0).less_than(&Natural::from_u64(1)));
    assert!(!Natural::from_u64(0).less_than(&Natural::from_u64(0)));
}
