use pmbus_bridge::binary32::Binary32;
use pmbus_bridge::linear::{decode_signed11, decode_unsigned16, encode_signed11, encode_unsigned16};

fn number(value: f32) -> Binary32 {
    Binary32::from_bits(value.to_bits())
}

fn float(value: Binary32) -> f32 {
    f32::from_bits(value.to_bits())
}

/// The reference formula for LINEAR16 in floating point.
fn reference16(value: f32, exponent: i32) -> u16 {
    let scaled = (value as f64) / 2f64.powi(exponent);
    let rounded = scaled.round();
    if rounded.is_nan() || rounded <= 0.0 {
        0
    } else if rounded >= 65535.0 {
        65535
    } else {
        rounded as u16
    }
}

/// The reference search for LINEAR11 in floating point.
fn reference11(value: f32) -> u16 {
    let value = if value.is_nan() { 0.0 } else { value as f64 };
    let mut exponent = -16;
    loop {
        let rounded = (value / 2f64.powi(exponent)).round();
        if (-1024.0..=1023.0).contains(&rounded) || exponent == 15 {
            let mantissa = rounded.clamp(-1024.0, 1023.0) as i32;
            return (((exponent & 0x1f) as u16) << 11) | ((mantissa & 0x7ff) as u16);
        }
        exponent += 1;
    }
}

fn sweep() -> Vec<f32> {
    let mut values = vec![
        0.0, -0.0, 1.0, -1.0, 0.5, 1.5, 2.5, -0.5, -1.5, -2.5, 1.05, -3.2, 3.3, 12.0, 0.001, 1023.0, 1023.4,
        1023.5, 1023.6, 1024.0, -1024.0, -1024.4, -1024.5, -1024.6, 65535.0, 65535.4, 65535.5, 65536.0,
        1.0e-3, 1.0e-6, 1.0e-20, 1.0e-40, 1.0e6, 3.0e7, 3.35e7, 3.36e7, -3.35e7, -3.36e7, 1.0e10, -1.0e10,
        f32::MAX, f32::MIN, f32::MIN_POSITIVE, f32::EPSILON,
    ];
    let mut bits: u32 = 0x0000_0001;
    while bits < 0x7f80_0000 {
        values.push(f32::from_bits(bits));
        values.push(f32::from_bits(bits | 0x8000_0000));
        bits = bits.wrapping_mul(3).wrapping_add(0x0012_3457);
    }
    values
}

#[test]
fn linear16_voltage_scenario() {
    let mantissa = encode_unsigned16(number(1.05), -9);
    assert_eq!(mantissa, 538);
    let decoded = float(decode_unsigned16(mantissa, -9));
    assert_eq!(decoded, 538.0 / 512.0);
    assert_eq!(decoded.to_bits(), 0x3f86_8000);
    assert!((decoded - 1.05).abs() <= 1.0 / 1024.0);
}

#[test]
fn linear11_current_scenario() {
    let word = encode_signed11(number(-3.2));
    // exponent -8 in the high five bits, mantissa -819 in the low eleven
    assert_eq!(word, 0xc4cd);
    assert_eq!(word >> 11, 0b11000);
    assert_eq!(word & 0x7ff, (2048 - 819) as u16);
    let decoded = float(decode_signed11(word));
    assert_eq!(decoded, -819.0 / 256.0);
    assert_eq!(decoded, -3.19921875);
}

#[test]
fn linear16_saturates_at_both_ends() {
    assert_eq!(encode_unsigned16(number(-0.25), 0), 0);
    assert_eq!(encode_unsigned16(number(-1.0e30), -9), 0);
    assert_eq!(encode_unsigned16(number(-0.0), -9), 0);
    assert_eq!(encode_unsigned16(number(128.0), -9), 65535);
    assert_eq!(encode_unsigned16(number(127.998046875), -9), 65535);
    assert_eq!(encode_unsigned16(number(65535.4), 0), 65535);
    assert_eq!(encode_unsigned16(number(65534.5), 0), 65535);
    assert_eq!(encode_unsigned16(number(65534.4), 0), 65534);
    assert_eq!(encode_unsigned16(number(f32::MAX), 0), 65535);
    assert_eq!(encode_unsigned16(number(f32::INFINITY), 0), 65535);
    assert_eq!(encode_unsigned16(number(f32::NEG_INFINITY), 0), 0);
    assert_eq!(encode_unsigned16(number(f32::NAN), 0), 0);
}

#[test]
fn linear16_rounds_ties_away_from_zero() {
    assert_eq!(encode_unsigned16(number(0.5), 0), 1);
    assert_eq!(encode_unsigned16(number(1.5), 0), 2);
    assert_eq!(encode_unsigned16(number(2.5), 0), 3);
    assert_eq!(encode_unsigned16(number(2.4999998), 0), 2);
    assert_eq!(encode_unsigned16(number(0.49999997), 0), 0);
    assert_eq!(encode_unsigned16(number(3.0), 1), 2);
    assert_eq!(encode_unsigned16(number(5.0), 1), 3);
}

#[test]
fn linear16_takes_every_exponent() {
    assert_eq!(encode_unsigned16(number(1.0), i32::MAX), 0);
    assert_eq!(encode_unsigned16(number(1.0), i32::MIN), 65535);
    assert_eq!(encode_unsigned16(number(0.0), i32::MIN), 0);
    assert_eq!(encode_unsigned16(number(f32::from_bits(1)), -149), 1);
    assert_eq!(encode_unsigned16(number(f32::from_bits(1)), -150), 2);
    assert_eq!(encode_unsigned16(number(f32::from_bits(1)), -148), 1);
    assert_eq!(encode_unsigned16(number(f32::from_bits(1)), -147), 0);
    assert_eq!(encode_unsigned16(number(f32::MAX), 112), 65535);
    assert_eq!(encode_unsigned16(number(f32::MAX), 113), 32768);
    assert_eq!(encode_unsigned16(number(f32::MAX), 128), 1);
    assert_eq!(encode_unsigned16(number(f32::MAX), 129), 0);
    assert_eq!(encode_unsigned16(number(2f32.powi(127)), 128), 1);
    assert_eq!(encode_unsigned16(number(2f32.powi(127)), 129), 0);
}

#[test]
fn linear16_agrees_with_the_formula() {
    for value in sweep() {
        for exponent in [-30, -16, -13, -9, -1, 0, 1, 7, 15, 40] {
            assert_eq!(
                encode_unsigned16(number(value), exponent),
                reference16(value, exponent),
                "{value:e} at {exponent}"
            );
        }
    }
}

#[test]
fn linear16_decodes_exactly() {
    for mantissa in [0u16, 1, 2, 3, 538, 1023, 1024, 32767, 32768, 65534, 65535] {
        for exponent in -40..=40 {
            let decoded = float(decode_unsigned16(mantissa, exponent));
            assert_eq!(decoded, mantissa as f32 * 2f32.powi(exponent), "{mantissa} at {exponent}");
        }
    }
    assert_eq!(decode_unsigned16(0, 0).to_bits(), 0);
    assert_eq!(decode_unsigned16(1, 0).to_bits(), 0x3f80_0000);
    assert_eq!(decode_unsigned16(3, -1).to_bits(), 0x3fc0_0000);
}

#[test]
fn linear16_decodes_at_the_ends_of_single_precision() {
    assert_eq!(decode_unsigned16(1, -149).to_bits(), 1);
    assert_eq!(decode_unsigned16(65535, -149).to_bits(), 65535);
    assert_eq!(decode_unsigned16(1, -126).to_bits(), 0x0080_0000);
    // below the resolution a tie goes to the even neighbour
    assert_eq!(decode_unsigned16(1, -150).to_bits(), 0);
    assert_eq!(decode_unsigned16(3, -150).to_bits(), 2);
    assert_eq!(decode_unsigned16(5, -150).to_bits(), 2);
    assert_eq!(decode_unsigned16(7, -151).to_bits(), 2);
    assert_eq!(decode_unsigned16(65535, -165).to_bits(), 1);
    assert_eq!(decode_unsigned16(65535, -166).to_bits(), 0);
    assert_eq!(decode_unsigned16(65535, i32::MIN).to_bits(), 0);
    assert_eq!(float(decode_unsigned16(1, 127)), 2f32.powi(127));
    assert_eq!(float(decode_unsigned16(65535, 112)), 65535.0 * 2f32.powi(112));
    assert_eq!(float(decode_unsigned16(65535, 113)), f32::INFINITY);
    assert_eq!(float(decode_unsigned16(1, 128)), f32::INFINITY);
    assert_eq!(float(decode_unsigned16(1, i32::MAX)), f32::INFINITY);
    assert_eq!(decode_unsigned16(0, i32::MAX).to_bits(), 0);
}

#[test]
fn linear16_round_trip_is_within_half_a_step() {
    for value in sweep() {
        for exponent in [-16, -13, -9, -1, 0, 1, 7, 15] {
            let step = 2f64.powi(exponent);
            if !(value >= 0.0) || (value as f64 / step).round() > 65535.0 {
                continue;
            }
            let decoded = float(decode_unsigned16(encode_unsigned16(number(value), exponent), exponent));
            assert!(
                (decoded as f64 - value as f64).abs() <= step / 2.0,
                "{value:e} at {exponent}"
            );
        }
    }
}

#[test]
fn linear11_picks_the_least_exponent() {
    assert_eq!(encode_signed11(number(0.0)), 0x8000);
    assert_eq!(encode_signed11(number(-0.0)), 0x8000);
    assert_eq!(encode_signed11(number(f32::NAN)), 0x8000);
    // 1.0 = 1023 * 2^-10 rounded: 1024 does not fit at -10, 512 fits at -9
    assert_eq!(encode_signed11(number(1.0)), (23 << 11) | 512);
    // -1.0 = -1024 * 2^-10 fits
    assert_eq!(encode_signed11(number(-1.0)), (22 << 11) | 1024);
    assert_eq!(encode_signed11(number(1023.0)), 1023);
    assert_eq!(encode_signed11(number(1023.4)), 1023);
    // 1023.5 rounds to 1024 at exponent 0 and to 512 at exponent 1
    assert_eq!(encode_signed11(number(1023.5)), (1 << 11) | 512);
    assert_eq!(encode_signed11(number(-1024.0)), 1024);
    // -1024.5 rounds to -1025 at exponent 0 and to -512 at exponent 1
    assert_eq!(encode_signed11(number(-1024.5)), (1 << 11) | (2048 - 512));
    assert_eq!(encode_signed11(number(-1025.0)), (1 << 11) | (2048 - 513));
    // the smallest numbers round to nothing at the least exponent
    assert_eq!(encode_signed11(number(1.0e-30)), 0x8000);
    assert_eq!(encode_signed11(number(-1.0e-30)), 0x8000);
    assert_eq!(encode_signed11(number(2f32.powi(-17))), (16 << 11) | 1);
    assert_eq!(encode_signed11(number(-(2f32.powi(-17)))), (16 << 11) | 2047);
}

#[test]
fn linear11_saturates_at_the_largest_exponent() {
    let largest = 1023.0 * 32768.0;
    assert_eq!(encode_signed11(number(largest)), (15 << 11) | 1023);
    assert_eq!(encode_signed11(number(largest + 16384.0)), (15 << 11) | 1023);
    assert_eq!(encode_signed11(number(1.0e10)), (15 << 11) | 1023);
    assert_eq!(encode_signed11(number(f32::MAX)), (15 << 11) | 1023);
    assert_eq!(encode_signed11(number(f32::INFINITY)), (15 << 11) | 1023);
    assert_eq!(encode_signed11(number(-1024.0 * 32768.0)), (15 << 11) | 1024);
    assert_eq!(encode_signed11(number(-1.0e10)), (15 << 11) | 1024);
    assert_eq!(encode_signed11(number(f32::NEG_INFINITY)), (15 << 11) | 1024);
}

#[test]
fn linear11_agrees_with_the_search() {
    for value in sweep() {
        assert_eq!(encode_signed11(number(value)), reference11(value), "{value:e}");
    }
}

#[test]
fn linear11_decodes_every_word() {
    for word in 0..=u16::MAX {
        let mantissa = (((word & 0x7ff) as i16) << 5) >> 5;
        let exponent = ((word >> 11) as i8) << 3 >> 3;
        let decoded = float(decode_signed11(word));
        assert_eq!(decoded, mantissa as f32 * 2f32.powi(exponent as i32), "{word:#06x}");
        assert_eq!(decoded.is_sign_negative(), mantissa < 0, "{word:#06x}");
    }
}

#[test]
fn linear11_round_trip_is_within_half_a_step() {
    for value in sweep() {
        if !value.is_finite() || (value as f64 / 32768.0).round().abs() > 1023.0 {
            continue;
        }
        let word = encode_signed11(number(value));
        let exponent = ((word >> 11) as i8) << 3 >> 3;
        let decoded = float(decode_signed11(word));
        assert!(
            (decoded as f64 - value as f64).abs() <= 2f64.powi(exponent as i32) / 2.0,
            "{value:e}"
        );
    }
}

#[test]
fn binary32_tells_the_classes_apart() {
    assert!(number(1.0).is_finite());
    assert!(number(f32::MAX).is_finite());
    assert!(number(f32::from_bits(1)).is_finite());
    assert!(!number(f32::INFINITY).is_finite());
    assert!(!number(f32::NAN).is_finite());
    assert!(number(f32::INFINITY).is_infinite());
    assert!(number(f32::NEG_INFINITY).is_infinite());
    assert!(!number(f32::NAN).is_infinite());
    assert!(number(f32::NAN).is_nan());
    assert!(!number(f32::INFINITY).is_nan());
    assert!(number(-0.0).is_sign_negative());
    assert!(!number(0.0).is_sign_negative());
    assert_eq!(number(1.0).significand_bits(), 0x80_0000);
    assert_eq!(number(1.0).scale_bits(), -23);
    assert_eq!(number(f32::from_bits(5)).significand_bits(), 5);
    assert_eq!(number(f32::from_bits(5)).scale_bits(), -149);
    assert_eq!(number(f32::MAX).significand_bits(), 0xff_ffff);
    assert_eq!(number(f32::MAX).scale_bits(), 104);
}

#[test]
fn binary32_is_built_from_a_magnitude_and_an_exponent() {
    assert_eq!(float(Binary32::from_scaled(false, 3, -1)), 1.5);
    assert_eq!(float(Binary32::from_scaled(true, 3, -1)), -1.5);
    assert_eq!(float(Binary32::from_scaled(false, 0xff_ffff, 104)), f32::MAX);
    assert_eq!(float(Binary32::from_scaled(true, 0xff_ffff, 105)), f32::NEG_INFINITY);
    assert_eq!(Binary32::from_scaled(true, 0, 0).to_bits(), 0x8000_0000);
    assert_eq!(Binary32::from_scaled(false, 0xff_ffff, -150).to_bits(), 0x80_0000);
    assert_eq!(Binary32::from_scaled(false, 0xff_fffd, -150).to_bits(), 0x7f_fffe);
    for magnitude in [1u32, 2, 3, 7, 1000, 0x80_0000, 0xab_cdef, 0xff_ffff] {
        for exponent in -180..=110 {
            let expected = (magnitude as f64 * 2f64.powi(exponent)) as f32;
            assert_eq!(
                float(Binary32::from_scaled(false, magnitude, exponent)),
                expected,
                "{magnitude} at {exponent}"
            );
        }
    }
}
