//! Known encodings, checked in both directions for every width.

use vu128::decode_f32_bits;
use vu128::decode_f64_bits;
use vu128::decode_i128;
use vu128::decode_i32;
use vu128::decode_i64;
use vu128::decode_u128;
use vu128::decode_u32;
use vu128::decode_u64;
use vu128::encode_f32_bits;
use vu128::encode_f64_bits;
use vu128::encode_i128;
use vu128::encode_i32;
use vu128::encode_i64;
use vu128::encode_u128;
use vu128::encode_u32;
use vu128::encode_u64;

fn u32_test_cases() -> Vec<(u32, Vec<u8>)> {
    vec![
        (0xABCDE, vec![0xDE, 0xE6, 0x55]),
        (0x00000000, vec![0x00000000]),
        (0x0000007F, vec![0x0000007F]),
        (0x00000080, vec![0b10000000, 0x02]),
        (0x00003FFF, vec![0b10111111, 0xFF]),
        (0x00004000, vec![0b11000000, 0x00, 0x02]),
        (0x001FFFFF, vec![0b11011111, 0xFF, 0xFF]),
        (0x00200000, vec![0b11100000, 0x00, 0x00, 0x02]),
        (0x0FFFFFFF, vec![0b11101111, 0xFF, 0xFF, 0xFF]),
        (0x10000000, vec![0b11110011, 0x00, 0x00, 0x00, 0x10]),
        (0xFFFFFFFF, vec![0b11110011, 0xFF, 0xFF, 0xFF, 0xFF]),
    ]
}

fn u64_test_cases() -> Vec<(u64, Vec<u8>)> {
    vec![
        (0x00000000_00000000, vec![0x00000000]),
        (0x00000000_0000007F, vec![0x0000007F]),
        (0x00000000_00000080, vec![0b10000000, 0x02]),
        (0x00000000_00003FFF, vec![0b10111111, 0xFF]),
        (0x00000000_00004000, vec![0b11000000, 0x00, 0x02]),
        (0x00000000_001FFFFF, vec![0b11011111, 0xFF, 0xFF]),
        (0x00000000_00200000, vec![0b11100000, 0x00, 0x00, 0x02]),
        (0x00000000_0FFFFFFF, vec![0b11101111, 0xFF, 0xFF, 0xFF]),
        (0x00000000_10000000, vec![0b11110011, 0x00, 0x00, 0x00, 0x10]),
        (0x00000000_FFFFFFFF, vec![0b11110011, 0xFF, 0xFF, 0xFF, 0xFF]),
        (0x00000001_FFFFFFFF, vec![0b11110100, 0xFF, 0xFF, 0xFF, 0xFF, 0x01]),
        (0x000000FF_FFFFFFFF, vec![0b11110100, 0xFF, 0xFF, 0xFF, 0xFF, 0xFF]),
        (0x000001FF_FFFFFFFF, vec![0b11110101, 0xFF, 0xFF, 0xFF, 0xFF, 0xFF, 0x01]),
        (0x0000FFFF_FFFFFFFF, vec![0b11110101, 0xFF, 0xFF, 0xFF, 0xFF, 0xFF, 0xFF]),
        (0x0001FFFF_FFFFFFFF, vec![0b11110110, 0xFF, 0xFF, 0xFF, 0xFF, 0xFF, 0xFF, 0x01]),
        (0x00FFFFFF_FFFFFFFF, vec![0b11110110, 0xFF, 0xFF, 0xFF, 0xFF, 0xFF, 0xFF, 0xFF]),
        (0x01FFFFFF_FFFFFFFF, vec![0b11110111, 0xFF, 0xFF, 0xFF, 0xFF, 0xFF, 0xFF, 0xFF, 0x01]),
        (0xFFFFFFFF_FFFFFFFF, vec![0b11110111, 0xFF, 0xFF, 0xFF, 0xFF, 0xFF, 0xFF, 0xFF, 0xFF]),
    ]
}

fn i32_test_cases() -> Vec<(i32, Vec<u8>)> {
    vec![
        (0x00000000, vec![0x00]),
        (0x0000007F, vec![0xBE, 0x03]),
        (0x00000080, vec![0x80, 0x04]),
        (0x000000FF, vec![0xBE, 0x07]),
        (0x000001FF, vec![0xBE, 0x0F]),
        (0x0000FFFF, vec![0xDE, 0xFF, 0x0F]),
        (0x0001FFFF, vec![0xDE, 0xFF, 0x1F]),
        (0x00FFFFFF, vec![0xEE, 0xFF, 0xFF, 0x1F]),
        (0x01FFFFFF, vec![0xEE, 0xFF, 0xFF, 0x3F]),
        (0xFFFFFFFFu32 as i32, vec![0x01]),
        (0xFFFFFF00u32 as i32, vec![0xBF, 0x07]),
        (0xFFFF0000u32 as i32, vec![0xDF, 0xFF, 0x0F]),
        (0xFF000000u32 as i32, vec![0xEF, 0xFF, 0xFF, 0x1F]),
        (0x80000000u32 as i32, vec![0xF3, 0xFF, 0xFF, 0xFF, 0xFF]),
    ]
}

fn i64_test_cases() -> Vec<(i64, Vec<u8>)> {
    vec![
        (0x00000000_00000000, vec![0x00]),
        (0x00000000_0000007F, vec![0xBE, 0x03]),
        (0x00000000_00000080, vec![0x80, 0x04]),
        (0x00000000_000000FF, vec![0xBE, 0x07]),
        (0x00000000_000001FF, vec![0xBE, 0x0F]),
        (0x00000000_0000FFFF, vec![0xDE, 0xFF, 0x0F]),
        (0x00000000_0001FFFF, vec![0xDE, 0xFF, 0x1F]),
        (0x00000000_00FFFFFF, vec![0xEE, 0xFF, 0xFF, 0x1F]),
        (0x00000000_01FFFFFF, vec![0xEE, 0xFF, 0xFF, 0x3F]),
        (0x00000000_FFFFFFFF, vec![0xF4, 0xFE, 0xFF, 0xFF, 0xFF, 0x01]),
        (0x00000001_FFFFFFFF, vec![0xF4, 0xFE, 0xFF, 0xFF, 0xFF, 0x03]),
        (0x000000FF_FFFFFFFF, vec![0xF5, 0xFE, 0xFF, 0xFF, 0xFF, 0xFF, 0x01]),
        (0x000001FF_FFFFFFFF, vec![0xF5, 0xFE, 0xFF, 0xFF, 0xFF, 0xFF, 0x03]),
        (0x0000FFFF_FFFFFFFF, vec![0xF6, 0xFE, 0xFF, 0xFF, 0xFF, 0xFF, 0xFF, 0x01]),
        (0x0001FFFF_FFFFFFFF, vec![0xF6, 0xFE, 0xFF, 0xFF, 0xFF, 0xFF, 0xFF, 0x03]),
        (0x00FFFFFF_FFFFFFFF, vec![0xF7, 0xFE, 0xFF, 0xFF, 0xFF, 0xFF, 0xFF, 0xFF, 0x01]),
        (0x01FFFFFF_FFFFFFFF, vec![0xF7, 0xFE, 0xFF, 0xFF, 0xFF, 0xFF, 0xFF, 0xFF, 0x03]),
        (0xFFFFFFFF_FFFFFFFFu64 as i64, vec![0x01]),
        (0xFFFFFFFF_FFFFFF00u64 as i64, vec![0xBF, 0x07]),
        (0xFFFFFFFF_FFFF0000u64 as i64, vec![0xDF, 0xFF, 0x0F]),
        (0xFFFFFFFF_FF000000u64 as i64, vec![0xEF, 0xFF, 0xFF, 0x1F]),
        (0xFFFFFFFF_00000000u64 as i64, vec![0xF4, 0xFF, 0xFF, 0xFF, 0xFF, 0x01]),
        (0xFFFFFF00_00000000u64 as i64, vec![0xF5, 0xFF, 0xFF, 0xFF, 0xFF, 0xFF, 0x01]),
        (0xFFFF0000_00000000u64 as i64, vec![0xF6, 0xFF, 0xFF, 0xFF, 0xFF, 0xFF, 0xFF, 0x01]),
        (0xFF000000_00000000u64 as i64, vec![0xF7, 0xFF, 0xFF, 0xFF, 0xFF, 0xFF, 0xFF, 0xFF, 0x01]),
        (0x80000000_00000000u64 as i64, vec![0xF7, 0xFF, 0xFF, 0xFF, 0xFF, 0xFF, 0xFF, 0xFF, 0xFF]),
    ]
}

fn f32_test_cases() -> Vec<(f32, Vec<u8>)> {
    vec![(0.0, vec![0x00]), (-0.0, vec![0x80, 0x02])]
}

fn f64_test_cases() -> Vec<(f64, Vec<u8>)> {
    vec![(0.0, vec![0x00]), (-0.0, vec![0x80, 0x02])]
}

#[test]
fn test_encode_u32() {
    for (value, expect) in u32_test_cases() {
        let mut buf = [0u8; 5];
        let len = encode_u32(&mut buf, value);
        assert_eq!(&buf[..len], &expect[..], "encode_u32(0x{:08X})", value);
    }
}

#[test]
fn test_decode_u32() {
    for (expect, encoded_value) in u32_test_cases() {
        let mut buf = [0u8; 5];
        (&mut buf[0..encoded_value.len()]).copy_from_slice(&encoded_value);
        let got = decode_u32(&buf);
        let expect = (expect, encoded_value.len());
        assert_eq!(got, expect, "decode_u32({:02X?})", encoded_value);
    }
}

#[test]
fn test_encode_u64() {
    for (value, expect) in u64_test_cases() {
        let mut buf = [0u8; 9];
        let len = encode_u64(&mut buf, value);
        assert_eq!(&buf[..len], &expect[..], "encode_u64(0x{:016X})", value);
    }
}

#[test]
fn test_decode_u64() {
    for (expect, encoded_value) in u64_test_cases() {
        let mut buf = [0u8; 9];
        (&mut buf[0..encoded_value.len()]).copy_from_slice(&encoded_value);
        let got = decode_u64(&buf);
        let expect = (expect, encoded_value.len());
        assert_eq!(got, expect, "decode_u64({:02X?})", encoded_value);
    }
}

#[test]
fn test_encode_u128() {
    for (value, expect) in u32_test_cases() {
        let value = value as u128;
        let mut buf = [0u8; 17];
        let len = encode_u128(&mut buf, value);
        assert_eq!(&buf[..len], &expect[..], "encode_u128(0x{:032X})", value);
    }
    for (value, expect) in u64_test_cases() {
        let value = value as u128;
        let mut buf = [0u8; 17];
        let len = encode_u128(&mut buf, value);
        assert_eq!(&buf[..len], &expect[..], "encode_u128(0x{:032X})", value);
    }
}

#[test]
fn test_decode_u128() {
    for (expect, encoded_value) in u32_test_cases() {
        let mut buf = [0u8; 17];
        (&mut buf[0..encoded_value.len()]).copy_from_slice(&encoded_value);
        let got = decode_u128(&buf);
        let expect = (expect as u128, encoded_value.len());
        assert_eq!(got, expect, "decode_u128({:02X?})", encoded_value);
    }
    for (expect, encoded_value) in u64_test_cases() {
        let mut buf = [0u8; 17];
        (&mut buf[0..encoded_value.len()]).copy_from_slice(&encoded_value);
        let got = decode_u128(&buf);
        let expect = (expect as u128, encoded_value.len());
        assert_eq!(got, expect, "decode_u128({:02X?})", encoded_value);
    }
}

#[test]
fn test_encode_i32() {
    for (value, expect) in i32_test_cases() {
        let mut buf = [0u8; 5];
        let len = encode_i32(&mut buf, value);
        assert_eq!(&buf[..len], &expect[..], "encode_i32({})", value);
    }
}

#[test]
fn test_decode_i32() {
    for (expect, encoded_value) in i32_test_cases() {
        let mut buf = [0u8; 5];
        (&mut buf[0..encoded_value.len()]).copy_from_slice(&encoded_value);
        let got = decode_i32(&buf);
        let expect = (expect, encoded_value.len());
        assert_eq!(got, expect, "decode_i32({:02X?})", encoded_value);
    }
}

#[test]
fn test_encode_i64() {
    for (value, expect) in i64_test_cases() {
        let mut buf = [0u8; 9];
        let len = encode_i64(&mut buf, value);
        assert_eq!(&buf[..len], &expect[..], "encode_i64({})", value);
    }
}

#[test]
fn test_decode_i64() {
    for (expect, encoded_value) in i64_test_cases() {
        let mut buf = [0u8; 9];
        (&mut buf[0..encoded_value.len()]).copy_from_slice(&encoded_value);
        let got = decode_i64(&buf);
        let expect = (expect, encoded_value.len());
        assert_eq!(got, expect, "decode_i64({:02X?})", encoded_value);
    }
}

#[test]
fn test_encode_i128() {
    for (value, expect) in i32_test_cases() {
        let value = value as i128;
        let mut buf = [0u8; 17];
        let len = encode_i128(&mut buf, value);
        assert_eq!(&buf[..len], &expect[..], "encode_i128({})", value);
    }
    for (value, expect) in i64_test_cases() {
        let value = value as i128;
        let mut buf = [0u8; 17];
        let len = encode_i128(&mut buf, value);
        assert_eq!(&buf[..len], &expect[..], "encode_i128({})", value);
    }
}

#[test]
fn test_decode_i128() {
    for (expect, encoded_value) in i32_test_cases() {
        let mut buf = [0u8; 17];
        (&mut buf[0..encoded_value.len()]).copy_from_slice(&encoded_value);
        let got = decode_i128(&buf);
        let expect = (expect as i128, encoded_value.len());
        assert_eq!(got, expect, "decode_i128({:02X?})", encoded_value);
    }
    for (expect, encoded_value) in i64_test_cases() {
        let mut buf = [0u8; 17];
        (&mut buf[0..encoded_value.len()]).copy_from_slice(&encoded_value);
        let got = decode_i128(&buf);
        let expect = (expect as i128, encoded_value.len());
        assert_eq!(got, expect, "decode_i128({:02X?})", encoded_value);
    }
}

#[test]
fn test_encode_f32() {
    for (value, expect) in f32_test_cases() {
        let mut buf = [0u8; 5];
        let len = encode_f32_bits(&mut buf, value.to_bits());
        assert_eq!(&buf[..len], &expect[..], "encode_f32_bits({:?})", value);
    }
}

#[test]
fn test_decode_f32() {
    for (expect, encoded_value) in f32_test_cases() {
        let mut buf = [0u8; 5];
        (&mut buf[0..encoded_value.len()]).copy_from_slice(&encoded_value);
        let (bits, len) = decode_f32_bits(&buf);
        assert_eq!(bits, expect.to_bits(), "decode_f32_bits({:02X?})", encoded_value);
        assert_eq!((f32::from_bits(bits), len), (expect, encoded_value.len()));
    }
}

#[test]
fn test_encode_f64() {
    for (value, expect) in f64_test_cases() {
        let mut buf = [0u8; 9];
        let len = encode_f64_bits(&mut buf, value.to_bits());
        assert_eq!(&buf[..len], &expect[..], "encode_f64_bits({:?})", value);
    }
}

#[test]
fn test_decode_f64() {
    for (expect, encoded_value) in f64_test_cases() {
        let mut buf = [0u8; 9];
        (&mut buf[0..encoded_value.len()]).copy_from_slice(&encoded_value);
        let (bits, len) = decode_f64_bits(&buf);
        assert_eq!(bits, expect.to_bits(), "decode_f64_bits({:02X?})", encoded_value);
        assert_eq!((f64::from_bits(bits), len), (expect, encoded_value.len()));
    }
}
