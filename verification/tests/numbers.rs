use starlight::decimal::{decimal_text, format_tenths};
use starlight::frame::byte_fraction;
use starlight::sensor::celsius_of;
use starlight::{read_cpu_temperature_c, Single};

fn single(value: f32) -> Single {
    Single { bits: value.to_bits() }
}

fn value(single: Single) -> f32 {
    f32::from_bits(single.bits)
}

/// Special values and a spread of ordinary ones.
fn samples() -> Vec<f32> {
    let mut all = vec![
        0.0,
        -0.0,
        0.05,
        0.15,
        0.25,
        0.35,
        -0.04,
        -0.05,
        0.95,
        9.95,
        9.949,
        99.95,
        81.25,
        63.2,
        200.0,
        200.00002,
        63200.0,
        84999.0,
        1.0e10,
        f32::MAX,
        f32::MIN,
        f32::MIN_POSITIVE,
        f32::EPSILON,
        f32::INFINITY,
        f32::NEG_INFINITY,
        f32::NAN,
        f32::from_bits(1),
        f32::from_bits(0x7fff_ffff),
        f32::from_bits(0xff80_0001),
    ];
    let mut bits: u32 = 0x1234_5678;
    for _ in 0..20_000 {
        bits = bits.wrapping_mul(1_664_525).wrapping_add(1_013_904_223);
        all.push(f32::from_bits(bits));
        // The same significand with a magnitude around one hundred.
        all.push(f32::from_bits((bits & 0x80ff_ffff) | 0x4200_0000));
    }
    all
}

#[test]
fn bytes_scale_as_single_precision_division_does() {
    for byte in 0..=255u8 {
        assert_eq!(byte_fraction(byte).bits, (byte as f32 / 255.0).to_bits());
    }
}

#[test]
fn raw_readings_scale_as_single_precision_division_does() {
    for raw in samples() {
        let expected = if raw > 200.0 { raw / 1000.0 } else { raw };
        assert_eq!(celsius_of(single(raw)).bits, expected.to_bits());
    }
}

#[test]
fn tenths_print_as_the_formatter_prints_them() {
    for v in samples() {
        assert_eq!(format_tenths(single(v)), format!("{v:.1}"));
    }
    assert_eq!(format_tenths(single(81.25)), "81.2");
    assert_eq!(format_tenths(single(81.75)), "81.8");
    assert_eq!(format_tenths(single(-0.04)), "-0.0");
}

#[test]
fn whole_numbers_print_in_decimal() {
    for n in [0u128, 9, 10, 99, 100, 1_710_000_000, u64::MAX as u128, u128::MAX] {
        assert_eq!(decimal_text(n), format!("{n}"));
    }
}

#[test]
fn order_is_the_order_of_numbers() {
    let all: Vec<f32> = samples().into_iter().step_by(37).collect();
    for a in &all {
        for b in all.iter().take(60) {
            assert_eq!(single(*a).ge(single(*b)), a >= b);
            assert_eq!(single(*a).gt(single(*b)), a > b);
        }
        assert_eq!(single(*a).is_positive(), *a > 0.0);
        assert_eq!(single(*a).is_finite(), a.is_finite());
        assert_eq!(single(*a).is_nan(), a.is_nan());
        assert_eq!(single(*a).is_infinite(), a.is_infinite());
    }
}

#[test]
fn first_sensor_with_a_number_counts() {
    let read = |readings: &[Option<Single>]| read_cpu_temperature_c(readings).map(value);
    assert_eq!(read(&[Some(single(63200.0)), Some(single(50.0))]), Some(63.2));
    assert_eq!(read(&[None, Some(single(51.5))]), Some(51.5));
    assert_eq!(read(&[None, None]), None);
    assert_eq!(read(&[]), None);
}
