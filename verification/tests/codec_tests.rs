//! Round-trip and edge-case tests for the primitive codec.

use rmw_libp2p_rs::codec::{CodecError, ReadCursor, WriteCursor};

fn roundtrip_bytes(wc: WriteCursor) -> ReadCursor {
    ReadCursor::read_new(wc.as_bytes())
}

#[test]
fn test_buffer_lifecycle() {
    let wc = WriteCursor::write_new();
    assert!(wc.byte_len() == 0);

    let data = vec![0u8, 1, 2, 3];
    let rc = ReadCursor::read_new(&data);
    assert!(rc.remaining() == 4);
}

#[test]
fn test_uint64_roundtrip() {
    let mut wc = WriteCursor::write_new();
    let test_val: u64 = 0x0123456789ABCDEF;
    wc.write_u64(test_val);
    let mut rc = roundtrip_bytes(wc);
    assert_eq!(rc.read_u64().unwrap(), test_val);
}

#[test]
fn test_uint32_roundtrip() {
    let mut wc = WriteCursor::write_new();
    let test_val: u32 = 0x01234567;
    wc.write_u32(test_val);
    let mut rc = roundtrip_bytes(wc);
    assert_eq!(rc.read_u32().unwrap(), test_val);
}

#[test]
fn test_uint16_roundtrip() {
    let mut wc = WriteCursor::write_new();
    let test_val: u16 = 0x0123;
    wc.write_u16(test_val);
    let mut rc = roundtrip_bytes(wc);
    assert_eq!(rc.read_u16().unwrap(), test_val);
}

#[test]
fn test_uint8_roundtrip() {
    let mut wc = WriteCursor::write_new();
    let test_val: u8 = 0x42;
    wc.write_u8(test_val);
    let mut rc = roundtrip_bytes(wc);
    assert_eq!(rc.read_u8().unwrap(), test_val);
}

#[test]
fn test_int64_roundtrip() {
    let mut wc = WriteCursor::write_new();
    let test_val: i64 = -0x0123456789ABCDEF;
    wc.write_i64(test_val);
    let mut rc = roundtrip_bytes(wc);
    assert_eq!(rc.read_i64().unwrap(), test_val);
}

#[test]
fn test_int32_roundtrip() {
    let mut wc = WriteCursor::write_new();
    let test_val: i32 = -0x01234567;
    wc.write_i32(test_val);
    let mut rc = roundtrip_bytes(wc);
    assert_eq!(rc.read_i32().unwrap(), test_val);
}

#[test]
fn test_int16_roundtrip() {
    let mut wc = WriteCursor::write_new();
    let test_val: i16 = -0x0123;
    wc.write_i16(test_val);
    let mut rc = roundtrip_bytes(wc);
    assert_eq!(rc.read_i16().unwrap(), test_val);
}

#[test]
fn test_int8_roundtrip() {
    let mut wc = WriteCursor::write_new();
    let test_val: i8 = -42;
    wc.write_i8(test_val);
    let mut rc = roundtrip_bytes(wc);
    assert_eq!(rc.read_i8().unwrap(), test_val);
}

#[test]
fn test_char_roundtrip() {
    let mut wc = WriteCursor::write_new();
    let test_val: u8 = b'A';
    wc.write_char(test_val);
    let mut rc = roundtrip_bytes(wc);
    assert_eq!(rc.read_char().unwrap(), test_val);
}

#[test]
fn test_char16_roundtrip() {
    let mut wc = WriteCursor::write_new();
    let test_val: u16 = 0x3042; // Japanese Hiragana 'あ'
    wc.write_char16(test_val);
    let mut rc = roundtrip_bytes(wc);
    assert_eq!(rc.read_char16().unwrap(), test_val);
}

#[test]
fn test_float_roundtrip() {
    let mut wc = WriteCursor::write_new();
    let test_val: f32 = std::f32::consts::PI;
    wc.write_f32_bits(test_val.to_bits());
    let mut rc = roundtrip_bytes(wc);
    let result = f32::from_bits(rc.read_f32_bits().unwrap());
    assert_eq!(result, test_val);
}

#[test]
fn test_double_roundtrip() {
    let mut wc = WriteCursor::write_new();
    let test_val: f64 = std::f64::consts::E;
    wc.write_f64_bits(test_val.to_bits());
    let mut rc = roundtrip_bytes(wc);
    let result = f64::from_bits(rc.read_f64_bits().unwrap());
    assert_eq!(result, test_val);
}

#[test]
fn test_bool_roundtrip_true() {
    let mut wc = WriteCursor::write_new();
    wc.write_bool(true);
    let mut rc = roundtrip_bytes(wc);
    assert_eq!(rc.read_bool().unwrap(), true);
}

#[test]
fn test_bool_roundtrip_false() {
    let mut wc = WriteCursor::write_new();
    wc.write_bool(false);
    let mut rc = roundtrip_bytes(wc);
    assert_eq!(rc.read_bool().unwrap(), false);
}

#[test]
fn test_string_roundtrip() {
    let mut wc = WriteCursor::write_new();
    let content = b"Hello, World!".to_vec();
    wc.write_string(&content).unwrap();
    let mut rc = roundtrip_bytes(wc);
    let (bytes, size) = rc.read_string().unwrap();
    assert_eq!(size, 13);
    assert_eq!(bytes, content);
    assert_eq!(String::from_utf8(bytes).unwrap(), "Hello, World!");
}

#[test]
fn test_empty_string() {
    let mut wc = WriteCursor::write_new();
    let content: Vec<u8> = Vec::new();
    wc.write_string(&content).unwrap();
    let mut rc = roundtrip_bytes(wc);
    let (bytes, size) = rc.read_string().unwrap();
    assert_eq!(size, 0);
    assert!(bytes.is_empty());
}

#[test]
fn test_string_write_read_roundtrip() {
    let mut wc = WriteCursor::write_new();
    let content = b"Hello, World!".to_vec();
    wc.write_string(&content).unwrap();
    let mut rc = roundtrip_bytes(wc);
    let (bytes, size) = rc.read_string().unwrap();
    assert_eq!(size, 13);
    assert_eq!(String::from_utf8(bytes).unwrap(), "Hello, World!");
}

#[test]
fn test_empty_string_write_read_roundtrip() {
    let mut wc = WriteCursor::write_new();
    let content: Vec<u8> = Vec::new();
    wc.write_string(&content).unwrap();
    let mut rc = roundtrip_bytes(wc);
    let (_, size) = rc.read_string().unwrap();
    assert_eq!(size, 0);
}

#[test]
fn test_long_string_write_read_roundtrip() {
    let mut wc = WriteCursor::write_new();
    let test_data = "A".repeat(10240);
    let content = test_data.as_bytes().to_vec();
    wc.write_string(&content).unwrap();
    let mut rc = roundtrip_bytes(wc);
    let (bytes, size) = rc.read_string().unwrap();
    assert_eq!(size, 10240);
    assert_eq!(String::from_utf8(bytes).unwrap(), test_data);
}

#[test]
fn test_unicode_string_write_read_roundtrip() {
    let mut wc = WriteCursor::write_new();
    let test_data = "Hello 👋 世界 🌍";
    let content = test_data.as_bytes().to_vec();
    wc.write_string(&content).unwrap();
    let mut rc = roundtrip_bytes(wc);
    let (bytes, _) = rc.read_string().unwrap();
    assert_eq!(String::from_utf8(bytes).unwrap(), test_data);
}

#[test]
fn test_u16string_write_read_roundtrip() {
    let mut wc = WriteCursor::write_new();
    let test_data: Vec<u16> = vec![0x0041, 0x0042, 0x0043]; // ABC
    wc.write_wide_string(&test_data).unwrap();
    let mut rc = roundtrip_bytes(wc);
    let (units, size) = rc.read_wide_string().unwrap();
    assert_eq!(size, 3);
    assert_eq!(units, test_data);
}

#[test]
fn test_empty_u16string_write_read_roundtrip() {
    let mut wc = WriteCursor::write_new();
    let test_data: Vec<u16> = Vec::new();
    wc.write_wide_string(&test_data).unwrap();
    let mut rc = roundtrip_bytes(wc);
    let (_, size) = rc.read_wide_string().unwrap();
    assert_eq!(size, 0);
}

#[test]
fn test_long_u16string_write_read_roundtrip() {
    let mut wc = WriteCursor::write_new();
    let test_data: Vec<u16> = (0..10000).map(|i| (i % 65536) as u16).collect();
    wc.write_wide_string(&test_data).unwrap();
    let mut rc = roundtrip_bytes(wc);
    let (units, size) = rc.read_wide_string().unwrap();
    assert_eq!(size, 10000);
    assert_eq!(units, test_data);
}

#[test]
fn test_unicode_u16string_write_read_roundtrip() {
    let mut wc = WriteCursor::write_new();
    let test_data: Vec<u16> = vec![0x3042, 0x3044, 0x3046, 0x4E00, 0x4E8C]; // あいう一二
    wc.write_wide_string(&test_data).unwrap();
    let mut rc = roundtrip_bytes(wc);
    let (units, size) = rc.read_wide_string().unwrap();
    assert_eq!(size, 5);
    assert_eq!(units, test_data);
}

#[test]
fn test_u16string_roundtrip() {
    let mut wc = WriteCursor::write_new();
    let test_data: Vec<u16> = vec![0x3042, 0x3044, 0x3046]; // Japanese hiragana
    wc.write_wide_string(&test_data).unwrap();
    let mut rc = roundtrip_bytes(wc);
    let (units, size) = rc.read_wide_string().unwrap();
    assert_eq!(size, 3);
    assert_eq!(units, test_data);
}

#[test]
fn test_uint64_boundary_values() {
    let test_values = vec![0u64, u64::MAX, u64::MIN, u64::MAX / 2];
    for test_val in test_values {
        let mut wc = WriteCursor::write_new();
        wc.write_u64(test_val);
        let mut rc = roundtrip_bytes(wc);
        assert_eq!(rc.read_u64().unwrap(), test_val, "Failed for value: {}", test_val);
    }
}

#[test]
fn test_int64_boundary_values() {
    let test_values = vec![0i64, i64::MAX, i64::MIN, -1, 1];
    for test_val in test_values {
        let mut wc = WriteCursor::write_new();
        wc.write_i64(test_val);
        let mut rc = roundtrip_bytes(wc);
        assert_eq!(rc.read_i64().unwrap(), test_val, "Failed for value: {}", test_val);
    }
}

#[test]
fn test_float_special_values() {
    let test_values = vec![0.0f32, -0.0f32, f32::INFINITY, f32::NEG_INFINITY, f32::MIN, f32::MAX];
    for test_val in test_values {
        let mut wc = WriteCursor::write_new();
        wc.write_f32_bits(test_val.to_bits());
        let mut rc = roundtrip_bytes(wc);
        let result = f32::from_bits(rc.read_f32_bits().unwrap());
        assert_eq!(result, test_val, "Failed for value: {}", test_val);
    }
}

#[test]
fn test_float_nan() {
    let mut wc = WriteCursor::write_new();
    wc.write_f32_bits(f32::NAN.to_bits());
    let mut rc = roundtrip_bytes(wc);
    let result = f32::from_bits(rc.read_f32_bits().unwrap());
    assert!(result.is_nan(), "Expected NaN");
}

#[test]
fn test_double_special_values() {
    let test_values = vec![0.0f64, -0.0f64, f64::INFINITY, f64::NEG_INFINITY, f64::MIN, f64::MAX];
    for test_val in test_values {
        let mut wc = WriteCursor::write_new();
        wc.write_f64_bits(test_val.to_bits());
        let mut rc = roundtrip_bytes(wc);
        let result = f64::from_bits(rc.read_f64_bits().unwrap());
        assert_eq!(result, test_val, "Failed for value: {}", test_val);
    }
}

#[test]
fn test_double_nan() {
    let mut wc = WriteCursor::write_new();
    wc.write_f64_bits(f64::NAN.to_bits());
    let mut rc = roundtrip_bytes(wc);
    let result = f64::from_bits(rc.read_f64_bits().unwrap());
    assert!(result.is_nan(), "Expected NaN");
}

#[test]
fn test_multiple_values_sequence() {
    let mut wc = WriteCursor::write_new();
    wc.write_u32(42);
    wc.write_f32_bits(std::f32::consts::PI.to_bits());
    wc.write_bool(true);
    wc.write_i16(-100);

    let mut rc = roundtrip_bytes(wc);
    assert_eq!(rc.read_u32().unwrap(), 42);
    assert_eq!(f32::from_bits(rc.read_f32_bits().unwrap()), std::f32::consts::PI);
    assert!(rc.read_bool().unwrap());
    assert_eq!(rc.read_i16().unwrap(), -100);
}

#[test]
fn test_large_data_sequence() {
    let mut wc = WriteCursor::write_new();
    for i in 0..10000u32 {
        wc.write_u32(i);
    }
    let mut rc = roundtrip_bytes(wc);
    for i in 0..10000u32 {
        assert_eq!(rc.read_u32().unwrap(), i, "Mismatch at index {}", i);
    }
}

#[test]
fn test_long_string() {
    let long_str = "A".repeat(10000);
    let mut wc = WriteCursor::write_new();
    wc.write_string(&long_str.as_bytes().to_vec()).unwrap();
    let mut rc = roundtrip_bytes(wc);
    let (bytes, size) = rc.read_string().unwrap();
    assert_eq!(size, 10000);
    assert_eq!(String::from_utf8(bytes).unwrap(), long_str);
}

#[test]
fn test_write_null_string() {
    // Writing with no content must still write a valid empty-string
    // encoding, not omit the length prefix.
    let mut wc = WriteCursor::write_new();
    wc.write_string(&Vec::new()).unwrap();
    assert!(wc.byte_len() > 0);
    let mut rc = roundtrip_bytes(wc);
    let (_, size) = rc.read_string().unwrap();
    assert_eq!(size, 0);
}

#[test]
fn test_write_null_u16string() {
    let mut wc = WriteCursor::write_new();
    wc.write_wide_string(&Vec::new()).unwrap();
    assert!(wc.byte_len() > 0);
    let mut rc = roundtrip_bytes(wc);
    let (_, size) = rc.read_wide_string().unwrap();
    assert_eq!(size, 0);
}

#[test]
fn test_complex_mixed_sequence() {
    let mut wc = WriteCursor::write_new();
    wc.write_u64(1234567890); // timestamp
    wc.write_u32(42); // sequence number
    wc.write_string(&b"base_link".to_vec()).unwrap();
    wc.write_f64_bits(1.23456789f64.to_bits()); // position x
    wc.write_f64_bits(9.87654321f64.to_bits()); // position y
    wc.write_f64_bits(0.0f64.to_bits()); // position z
    wc.write_bool(true); // active flag

    let mut rc = roundtrip_bytes(wc);
    assert_eq!(rc.read_u64().unwrap(), 1234567890);
    assert_eq!(rc.read_u32().unwrap(), 42);
    let (frame, frame_len) = rc.read_string().unwrap();
    assert_eq!(frame_len, 9);
    assert_eq!(String::from_utf8(frame).unwrap(), "base_link");
    assert_eq!(f64::from_bits(rc.read_f64_bits().unwrap()), 1.23456789);
    assert_eq!(f64::from_bits(rc.read_f64_bits().unwrap()), 9.87654321);
    assert_eq!(f64::from_bits(rc.read_f64_bits().unwrap()), 0.0);
    assert!(rc.read_bool().unwrap());
}

#[test]
fn test_zero_values() {
    let mut wc = WriteCursor::write_new();
    wc.write_u64(0);
    wc.write_i64(0);
    wc.write_f32_bits(0.0f32.to_bits());
    wc.write_f64_bits(0.0f64.to_bits());

    let mut rc = roundtrip_bytes(wc);
    assert_eq!(rc.read_u64().unwrap(), 0);
    assert_eq!(rc.read_i64().unwrap(), 0);
    assert_eq!(f32::from_bits(rc.read_f32_bits().unwrap()), 0.0);
    assert_eq!(f64::from_bits(rc.read_f64_bits().unwrap()), 0.0);
}

#[test]
fn test_negative_zero_float() {
    let mut wc = WriteCursor::write_new();
    wc.write_f32_bits((-0.0f32).to_bits());
    let mut rc = roundtrip_bytes(wc);
    let result = f32::from_bits(rc.read_f32_bits().unwrap());
    assert_eq!(result, -0.0f32);
    assert_eq!(result.to_bits(), (-0.0f32).to_bits());
}

#[test]
fn test_all_integer_types_together() {
    let mut wc = WriteCursor::write_new();
    wc.write_u64(u64::MAX);
    wc.write_u32(u32::MAX);
    wc.write_u16(u16::MAX);
    wc.write_u8(u8::MAX);
    wc.write_i64(i64::MIN);
    wc.write_i32(i32::MIN);
    wc.write_i16(i16::MIN);
    wc.write_i8(i8::MIN);

    let mut rc = roundtrip_bytes(wc);
    assert_eq!(rc.read_u64().unwrap(), u64::MAX);
    assert_eq!(rc.read_u32().unwrap(), u32::MAX);
    assert_eq!(rc.read_u16().unwrap(), u16::MAX);
    assert_eq!(rc.read_u8().unwrap(), u8::MAX);
    assert_eq!(rc.read_i64().unwrap(), i64::MIN);
    assert_eq!(rc.read_i32().unwrap(), i32::MIN);
    assert_eq!(rc.read_i16().unwrap(), i16::MIN);
    assert_eq!(rc.read_i8().unwrap(), i8::MIN);
}

#[test]
fn test_exact_layout_bytes() {
    // The wire layout is a compatibility contract: big-endian, padded to
    // each value's natural alignment, counted from the start of the
    // stream.
    let mut wc = WriteCursor::write_new();
    wc.write_u16(0x0123);
    assert_eq!(wc.as_bytes().as_slice(), &[0x01, 0x23]);

    let mut wc = WriteCursor::write_new();
    wc.write_u8(0xAB);
    wc.write_u32(0x01234567);
    // 3 padding bytes align the u32 to offset 4.
    assert_eq!(wc.as_bytes().as_slice(), &[0xAB, 0, 0, 0, 0x01, 0x23, 0x45, 0x67]);

    let mut wc = WriteCursor::write_new();
    wc.write_u32(42);
    wc.write_bool(true);
    assert_eq!(wc.as_bytes().as_slice(), &[0, 0, 0, 42, 1]);

    let mut wc = WriteCursor::write_new();
    wc.write_string(&b"ab".to_vec()).unwrap();
    // length 3 (content plus terminator), then "ab", then the terminator.
    assert_eq!(wc.as_bytes().as_slice(), &[0, 0, 0, 3, b'a', b'b', 0]);

    let mut wc = WriteCursor::write_new();
    wc.write_wide_string(&vec![0x3042u16]).unwrap();
    assert_eq!(wc.as_bytes().as_slice(), &[0, 0, 0, 1, 0x30, 0x42]);
}

#[test]
fn test_truncated_reads_are_errors() {
    // A read past the end is a checked, recoverable error, and the cursor
    // stays usable where it was.
    let data = vec![0x01u8, 0x02];
    let mut rc = ReadCursor::read_new(&data);
    assert_eq!(rc.read_u32(), Err(CodecError::MalformedInput));
    assert_eq!(rc.read_u64(), Err(CodecError::MalformedInput));
    assert_eq!(rc.read_u16().unwrap(), 0x0102);
    assert_eq!(rc.read_u8(), Err(CodecError::MalformedInput));

    // A string length prefix of zero is invalid (a real encoding always
    // counts its terminator).
    let zero_len = vec![0u8, 0, 0, 0];
    let mut rc = ReadCursor::read_new(&zero_len);
    assert_eq!(rc.read_string().map(|p| p.1), Err(CodecError::MalformedInput));

    // A string length running past the end is malformed.
    let overlong = vec![0u8, 0, 0, 9, b'x'];
    let mut rc = ReadCursor::read_new(&overlong);
    assert_eq!(rc.read_string().map(|p| p.1), Err(CodecError::MalformedInput));

    // A wide-string count running past the end is malformed.
    let overlong_wide = vec![0u8, 0, 0, 3, 0, 1];
    let mut rc = ReadCursor::read_new(&overlong_wide);
    assert_eq!(rc.read_wide_string().map(|p| p.1), Err(CodecError::MalformedInput));

    // A boolean byte other than 0 or 1 is malformed, and the cursor does
    // not move.
    let bad_bool = vec![2u8];
    let mut rc = ReadCursor::read_new(&bad_bool);
    assert_eq!(rc.read_bool(), Err(CodecError::MalformedInput));
    assert_eq!(rc.read_u8().unwrap(), 2);
}
