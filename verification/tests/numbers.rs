use joc_app::bytes::{i16_from, push_u32_le, u32_le};
use joc_app::real32::{
    Real32, FIVE_BITS, FOUR_FIFTHS_BITS, HALF_BITS, ONE_BITS, TENTH_BITS, ZERO_BITS,
};

fn r(v: f32) -> Real32 {
    Real32::from_bits(v.to_bits())
}

fn samples() -> Vec<f32> {
    let mut v = vec![
        0.0,
        -0.0,
        0.1,
        0.5,
        0.50000006,
        0.8,
        0.99999994,
        1.0,
        1.5,
        5.0,
        5.0000005,
        65535.0,
        65535.996,
        65536.0,
        1e10,
        f32::MAX,
        f32::MIN_POSITIVE,
        f32::INFINITY,
        f32::NEG_INFINITY,
        f32::NAN,
        f32::from_bits(1),
        f32::from_bits(0x7FFFFF),
        -1.0,
        -0.5,
        -5.0,
        -65536.0,
        9.0,
        176.75,
    ];
    for i in 0..200u32 {
        v.push(f32::from_bits(i.wrapping_mul(0x9E3779B9)));
        v.push(i as f32 * 331.7);
    }
    v
}

#[test]
fn constants_are_the_numbers_they_name() {
    assert_eq!(f32::from_bits(ZERO_BITS), 0.0);
    assert_eq!(f32::from_bits(TENTH_BITS), 0.1);
    assert_eq!(f32::from_bits(HALF_BITS), 0.5);
    assert_eq!(f32::from_bits(FOUR_FIFTHS_BITS), 0.8);
    assert_eq!(f32::from_bits(ONE_BITS), 1.0);
    assert_eq!(f32::from_bits(FIVE_BITS), 5.0);
}

#[test]
fn comparison_agrees_with_the_processor() {
    for &a in &samples() {
        for &b in &samples() {
            assert_eq!(r(a).lt(r(b)), a < b, "{} < {}", a, b);
        }
        assert_eq!(r(a).nan(), a.is_nan());
    }
}

#[test]
fn range_test_agrees_with_the_processor() {
    for &v in &samples() {
        assert_eq!(r(v).in_range(r(0.0), r(5.0)), v >= 0.0 && v <= 5.0);
        assert_eq!(r(v).in_range(r(0.1), r(1.0)), v >= 0.1 && v <= 1.0);
    }
}

#[test]
fn conversion_agrees_with_the_processor() {
    for &v in &samples() {
        assert_eq!(r(v).to_u16(), v as u16, "{}", v);
    }
    assert_eq!(r(9.99).to_u16(), 9);
    assert_eq!(r(-3.0).to_u16(), 0);
    assert_eq!(r(1e9).to_u16(), 65535);
    assert_eq!(r(f32::NAN).to_u16(), 0);
}

#[test]
fn negation_flips_the_sign() {
    for &v in &samples() {
        assert_eq!(r(v).neg().to_bits(), (-v).to_bits());
    }
}

#[test]
fn little_endian_numbers() {
    assert_eq!(u32_le(&[0xFF, 0x78, 0x56, 0x34, 0x12], 1), 0x12345678);
    let mut out = vec![9];
    push_u32_le(&mut out, 0xDEADBEEF);
    assert_eq!(out, vec![9, 0xEF, 0xBE, 0xAD, 0xDE]);
    assert_eq!(u32_le(&out, 1), 0xDEADBEEF);
}

#[test]
fn signed_byte_pairs() {
    for hi in [0u8, 1, 0x7F, 0x80, 0xFF] {
        for lo in [0u8, 1, 0x7F, 0x80, 0xFF] {
            assert_eq!(i16_from(hi, lo), i16::from_be_bytes([hi, lo]));
        }
    }
}
