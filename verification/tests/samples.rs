use heightmap::sample::NoiseSample;
use heightmap::sample::DIVISOR_BITS;

/// The height as floating-point arithmetic gives it: scale by 1/255, then cut
/// down to a byte.
fn scaled(value: f64) -> u8 {
    ((1.0 / 255.0) * value) as u8
}

fn height_of(value: f64) -> u8 {
    NoiseSample::from_bits(value.to_bits()).normalized()
}

#[test]
fn bits_round_trip() {
    let sample = NoiseSample::from_bits(0x4059_0000_0000_0000);
    assert_eq!(sample.to_bits(), 0x4059_0000_0000_0000);
    assert_eq!(sample.bits, 100.0f64.to_bits());
}

#[test]
fn zero_has_height_zero() {
    assert_eq!(height_of(0.0), 0);
    assert_eq!(height_of(-0.0), 0);
}

#[test]
fn divisor_has_height_one() {
    assert_eq!(height_of(255.0), 1);
}

#[test]
fn divisor_bits_are_the_bits_of_255() {
    assert_eq!(DIVISOR_BITS, 255.0f64.to_bits());
}

#[test]
fn values_below_the_divisor_are_flat() {
    assert_eq!(height_of(1.0), 0);
    assert_eq!(height_of(0.5), 0);
    assert_eq!(height_of(0.999_999), 0);
    assert_eq!(height_of(127.0), 0);
    assert_eq!(height_of(128.0), 0);
    assert_eq!(height_of(254.0), 0);
    assert_eq!(height_of(254.999_999_999), 0);
    assert_eq!(height_of(f64::from_bits(DIVISOR_BITS - 1)), 0);
}

#[test]
fn values_in_the_unit_interval_are_flat() {
    let mut value = -1.0f64;
    while value <= 1.0 {
        assert_eq!(height_of(value), 0);
        value += 1.0 / 64.0;
    }
}

#[test]
fn whole_multiples_are_counted() {
    assert_eq!(height_of(256.0), 1);
    assert_eq!(height_of(509.999), 1);
    assert_eq!(height_of(510.0), 2);
    assert_eq!(height_of(765.0), 3);
    assert_eq!(height_of(1000.0), 3);
    assert_eq!(height_of(25_500.0), 100);
    assert_eq!(height_of(32_768.0), 128);
    assert_eq!(height_of(64_769.999), 253);
    assert_eq!(height_of(64_770.0), 254);
    assert_eq!(height_of(65_024.999), 254);
}

#[test]
fn large_values_saturate() {
    assert_eq!(height_of(65_025.0), 255);
    assert_eq!(height_of(65_535.0), 255);
    assert_eq!(height_of(65_536.0), 255);
    assert_eq!(height_of(1.0e9), 255);
    assert_eq!(height_of(4_503_599_627_370_496.0), 255);
    assert_eq!(height_of(1.0e300), 255);
    assert_eq!(height_of(f64::MAX), 255);
    assert_eq!(height_of(f64::INFINITY), 255);
}

#[test]
fn negative_values_are_flat() {
    assert_eq!(height_of(-1.0), 0);
    assert_eq!(height_of(-255.0), 0);
    assert_eq!(height_of(-65_025.0), 0);
    assert_eq!(height_of(-1.0e300), 0);
    assert_eq!(height_of(f64::NEG_INFINITY), 0);
}

#[test]
fn nan_is_flat() {
    assert_eq!(height_of(f64::NAN), 0);
    assert_eq!(NoiseSample::from_bits(0x7ff0_0000_0000_0001).normalized(), 0);
    assert_eq!(NoiseSample::from_bits(0x7fff_ffff_ffff_ffff).normalized(), 0);
    assert_eq!(NoiseSample::from_bits(0xfff8_0000_0000_0000).normalized(), 0);
}

#[test]
fn tiny_values_are_flat() {
    assert_eq!(height_of(f64::MIN_POSITIVE), 0);
    assert_eq!(height_of(f64::from_bits(1)), 0);
    assert_eq!(height_of(f64::from_bits(0x000f_ffff_ffff_ffff)), 0);
    assert_eq!(height_of(1.0e-300), 0);
}

#[test]
fn every_multiple_agrees_with_scaling() {
    for count in 1u32..=300 {
        let edge = f64::from(count * 255);
        let below = f64::from_bits(edge.to_bits() - 1);
        let above = f64::from_bits(edge.to_bits() + 1);
        let expected = if count > 255 { 255 } else { count as u8 };
        assert_eq!(height_of(edge), expected);
        assert_eq!(height_of(above), expected);
        assert_eq!(height_of(below), if count > 255 { 255 } else { expected - 1 });
        assert_eq!(height_of(edge), scaled(edge));
        assert_eq!(height_of(below), scaled(below));
        assert_eq!(height_of(above), scaled(above));
    }
}

#[test]
fn every_exponent_agrees_with_scaling() {
    for exponent in 0u64..=0x7ff {
        for fraction in [0u64, 1, 0x8_0000_0000_0000, 0xf_e000_0000_0000, 0xf_ffff_ffff_ffff] {
            for sign in [0u64, 1] {
                let bits = (sign << 63) | (exponent << 52) | fraction;
                let value = f64::from_bits(bits);
                assert_eq!(NoiseSample::from_bits(bits).normalized(), scaled(value));
            }
        }
    }
}

#[test]
fn scattered_patterns_agree_with_scaling() {
    let mut state: u64 = 0x9e37_79b9_7f4a_7c15;
    for _ in 0..200_000 {
        state = state.wrapping_mul(6_364_136_223_846_793_005).wrapping_add(1_442_695_040_888_963_407);
        let bits = state ^ (state >> 29);
        assert_eq!(NoiseSample::from_bits(bits).normalized(), scaled(f64::from_bits(bits)));
        let near = 0x4060_0000_0000_0000 + (bits >> 12) % 0x0090_0000_0000_0000;
        assert_eq!(NoiseSample::from_bits(near).normalized(), scaled(f64::from_bits(near)));
    }
}
