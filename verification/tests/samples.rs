//! Tests of the numeric sample model: exact scaling, clamping, the
//! quantization rules, and round trips through the normalized form.

use wav_source::codec::{f32_bits_to_norm, read_le_word};
use wav_source::sample::{
    i16_to_norm, i24_to_norm, i32_to_norm, i8_to_norm, norm_to_i16, norm_to_i24, norm_to_i32,
    norm_to_i8, Norm, Sample, NORM_ONE,
};
use wav_source::stream::ByteStream;

#[test]
fn scaling_8_bit() {
    assert_eq!(i8_to_norm(-128).raw, -(1i64 << 31));
    assert_eq!(i8_to_norm(0).raw, 0);
    assert_eq!(i8_to_norm(127).raw, 127i64 << 24);
    assert!((i8_to_norm(127).raw as f64 / (1u64 << 31) as f64 - 127.0 / 128.0).abs() < 1e-12);
}

#[test]
fn scaling_16_bit() {
    assert_eq!(i16_to_norm(-32768).raw, -(1i64 << 31));
    assert_eq!(i16_to_norm(0).raw, 0);
    assert_eq!(i16_to_norm(32767).raw, 32767i64 << 16);
    assert!((i16_to_norm(32767).raw as f64 / (1u64 << 31) as f64 - 32767.0 / 32768.0).abs() < 1e-12);
}

#[test]
fn scaling_24_bit() {
    assert_eq!(i24_to_norm(-(1 << 23)).raw, -(1i64 << 31));
    assert_eq!(i24_to_norm(0).raw, 0);
    assert_eq!(i24_to_norm((1 << 23) - 1).raw, ((1i64 << 23) - 1) << 8);
}

#[test]
fn scaling_32_bit() {
    assert_eq!(i32_to_norm(i32::MIN).raw, -(1i64 << 31));
    assert_eq!(i32_to_norm(0).raw, 0);
    assert_eq!(i32_to_norm(i32::MAX).raw, (1i64 << 31) - 1);
}

#[test]
fn extremes_stay_clamped() {
    // a 24-bit conversion fed a value outside the 24-bit range clamps
    let wide = i24_to_norm(0x7fff_ffff);
    assert_eq!(wide.raw, 1i64 << 31);
    let wide_neg = i24_to_norm(-0x8000_0000);
    assert_eq!(wide_neg.raw, -(1i64 << 31));
    for n in [
        i8_to_norm(i8::MIN),
        i8_to_norm(i8::MAX),
        i16_to_norm(i16::MIN),
        i16_to_norm(i16::MAX),
        i24_to_norm(i32::MIN),
        i24_to_norm(i32::MAX),
        i32_to_norm(i32::MIN),
        i32_to_norm(i32::MAX),
    ] {
        assert!(-NORM_ONE <= n.raw && n.raw <= NORM_ONE);
        let value = n.raw as f64 / (1u64 << 31) as f64;
        assert!((-1.0..=1.0).contains(&value));
    }
}

#[test]
fn round_trip_8_bit() {
    for v in [-128i8, -1, 0, 1, 63, 127] {
        assert_eq!(norm_to_i8(i8_to_norm(v)), v);
    }
}

#[test]
fn round_trip_16_bit() {
    for v in [-32768i16, -12345, -1, 0, 1, 12345, 32767] {
        assert_eq!(norm_to_i16(i16_to_norm(v)), v);
    }
}

#[test]
fn round_trip_24_bit() {
    for v in [-(1i32 << 23), -99999, -1, 0, 1, 99999, (1 << 23) - 1] {
        assert_eq!(norm_to_i24(i24_to_norm(v)), v);
    }
}

#[test]
fn round_trip_32_bit() {
    for v in [i32::MIN, -7_654_321, -1, 0, 1, 7_654_321, i32::MAX] {
        assert_eq!(norm_to_i32(i32_to_norm(v)), v);
    }
}

#[test]
fn quantization_truncates_toward_zero_and_clamps() {
    assert_eq!(norm_to_i16(Norm { raw: 0x18000 }), 1);
    assert_eq!(norm_to_i16(Norm { raw: -0x18000 }), -1);
    assert_eq!(norm_to_i16(Norm { raw: NORM_ONE }), 32767);
    assert_eq!(norm_to_i16(Norm { raw: -NORM_ONE }), -32768);
    assert_eq!(norm_to_i8(Norm { raw: NORM_ONE }), 127);
    assert_eq!(norm_to_i8(Norm { raw: -NORM_ONE }), -128);
    assert_eq!(norm_to_i32(Norm { raw: NORM_ONE }), i32::MAX);
    assert_eq!(norm_to_i32(Norm { raw: -NORM_ONE }), i32::MIN);
}

#[test]
fn unsigned_16_bit_samples_are_centered() {
    let n = 0u16.to_norm();
    assert_eq!(n.raw, -(1i64 << 31));
    assert_eq!(0x8000u16.to_norm().raw, 0);
    assert_eq!(u16::from_norm(Norm { raw: 0 }), 0x8000);
    assert_eq!(u16::from_norm(Norm { raw: NORM_ONE }), 0x8000 + 32767);
    for v in [0u16, 1, 0x7fff, 0x8000, 0x8001, 0xffff] {
        assert_eq!(u16::from_norm(v.to_norm()), v);
    }
}

#[test]
fn norm_is_its_own_representation() {
    let n = Norm { raw: 12345 };
    assert_eq!(n.to_norm(), n);
    assert_eq!(Norm::from_norm(n), n);
    assert_eq!(Norm::zero().raw, 0);
}

#[test]
fn float_bits_decode_exactly() {
    assert_eq!(f32_bits_to_norm(1.0f32.to_bits()).raw, 1i64 << 31);
    assert_eq!(f32_bits_to_norm((-1.0f32).to_bits()).raw, -(1i64 << 31));
    assert_eq!(f32_bits_to_norm(0.25f32.to_bits()).raw, 1i64 << 29);
    assert_eq!(f32_bits_to_norm(0.0f32.to_bits()).raw, 0);
    assert_eq!(f32_bits_to_norm((-0.0f32).to_bits()).raw, 0);
    // one quantization step: 2^-31 is representable exactly
    assert_eq!(f32_bits_to_norm((2.0f32).powi(-31).to_bits()).raw, 1);
    // below one step: truncates to silence
    assert_eq!(f32_bits_to_norm((2.0f32).powi(-40).to_bits()).raw, 0);
    assert_eq!(f32_bits_to_norm(1e-40f32.to_bits()).raw, 0);
    // out of range and non-finite patterns clamp to full scale
    assert_eq!(f32_bits_to_norm(2.5f32.to_bits()).raw, 1i64 << 31);
    assert_eq!(f32_bits_to_norm((-7.0f32).to_bits()).raw, -(1i64 << 31));
    assert_eq!(f32_bits_to_norm(f32::INFINITY.to_bits()).raw, 1i64 << 31);
    assert_eq!(f32_bits_to_norm(f32::NEG_INFINITY.to_bits()).raw, -(1i64 << 31));
}

#[test]
fn float_decode_agrees_with_native_floats() {
    for v in [0.1f32, -0.9, 0.333, 0.999999, -0.000123, 0.5000001] {
        let got = f32_bits_to_norm(v.to_bits()).raw;
        let expected = (v as f64) * (1u64 << 31) as f64;
        assert!((got as f64 - expected).abs() <= 1.0, "value {v}");
    }
}

#[test]
fn little_endian_words() {
    let data: Vec<u8> = vec![0x01, 0x02, 0x03, 0x04, 0x05];
    assert_eq!(read_le_word(&data, 0, 1), Some(0x01));
    assert_eq!(read_le_word(&data, 0, 2), Some(0x0201));
    assert_eq!(read_le_word(&data, 1, 3), Some(0x040302));
    assert_eq!(read_le_word(&data, 1, 4), Some(0x05040302));
    assert_eq!(read_le_word(&data, 2, 4), None);
    assert_eq!(read_le_word(&data, 5, 1), None);
}

#[test]
fn stream_reads_and_seeks() {
    let mut s = ByteStream::new(vec![10, 11, 12, 13]);
    assert_eq!(s.read(2), vec![10, 11]);
    assert_eq!(s.position(), 2);
    assert_eq!(s.read(10), vec![12, 13]);
    assert_eq!(s.position(), 4);
    assert_eq!(s.read(1), Vec::<u8>::new());
    s.seek(1);
    assert_eq!(s.read(2), vec![11, 12]);
    s.seek(100);
    assert_eq!(s.position(), 4);
    assert_eq!(s.into_vec(), vec![10, 11, 12, 13]);
}
