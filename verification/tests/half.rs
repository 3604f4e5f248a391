//! Half-precision storage.

use tensor_ash::dtype::Scalar;
use tensor_ash::half::{narrow, widen};

fn stored(value: f32) -> u16 {
    narrow(Scalar { bits: value.to_bits() })
}

fn read(half: u16) -> f32 {
    f32::from_bits(widen(half).bits)
}

#[test]
fn known_numbers_have_known_halves() {
    for (value, half) in [
        (0.0, 0x0000),
        (-0.0, 0x8000),
        (1.0, 0x3C00),
        (-2.0, 0xC000),
        (0.1, 0x2E66),
        (65504.0, 0x7BFF),
        (65519.0, 0x7BFF),
        (65520.0, 0x7C00),
        (1e30, 0x7C00),
        (f32::MAX, 0x7C00),
        (f32::INFINITY, 0x7C00),
        (f32::NEG_INFINITY, 0xFC00),
        (f32::MIN_POSITIVE, 0x0000),
    ] {
        assert_eq!(stored(value), half, "{value}");
    }
}

#[test]
fn ties_go_to_the_even_half() {
    let step = 2f32.powi(-11);
    assert_eq!(stored(1.0 + step), 0x3C00);
    assert_eq!(stored(1.0 + 3.0 * step), 0x3C02);
    assert_eq!(stored(1.0 + 1.01 * step), 0x3C01);
    let least = 2f32.powi(-24);
    assert_eq!(stored(least), 1);
    assert_eq!(stored(least / 2.0), 0);
    assert_eq!(stored(least * 0.51), 1);
    assert_eq!(stored(least * 1.5), 2);
    assert_eq!(stored(least * 2.5), 2);
    // The largest number below the smallest normal half rounds up into it.
    assert_eq!(stored(least * 1023.75), 0x0400);
}

#[test]
fn every_half_survives_a_round_trip() {
    for half in 0..=u16::MAX {
        let value = read(half);
        if half & 0x7FFF > 0x7C00 {
            assert!(value.is_nan());
            assert_eq!(stored(value), half | 0x0200);
            continue;
        }
        assert_eq!(stored(value), half);
        let magnitude = half & 0x7FFF;
        if magnitude == 0x7C00 {
            assert!(value.is_infinite());
            continue;
        }
        let (exponent, mantissa) = (magnitude >> 10, (magnitude & 0x3FF) as f32);
        let expected = if exponent == 0 {
            mantissa * 2f32.powi(-24)
        } else {
            (1024.0 + mantissa) * 2f32.powi(exponent as i32 - 25)
        };
        assert_eq!(value.abs(), expected);
        assert_eq!(value.is_sign_negative(), half >= 0x8000);
    }
}

#[test]
fn no_number_stays_no_number() {
    for bits in [0x7FC0_0000, 0x7F80_0001, 0xFFFF_FFFF, 0x7FA1_2345u32] {
        let half = narrow(Scalar { bits });
        assert!(half & 0x7FFF > 0x7C00 && half & 0x0200 != 0);
        assert_eq!(half >= 0x8000, bits >= 0x8000_0000);
    }
}

#[test]
fn storing_keeps_the_order_of_numbers() {
    let mut last = 0;
    let mut bits = 0u32;
    while bits < 0x7F80_0000 {
        let half = narrow(Scalar { bits });
        assert!(half >= last);
        last = half;
        bits += 0x1234;
    }
    assert_eq!(last, 0x7C00);
}
