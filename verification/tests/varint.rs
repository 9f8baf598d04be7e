//! Variable-length integer reader tests.

use wasm_decoder::error::DecodeError;
use wasm_decoder::leb128::parse_leb_i32;
use wasm_decoder::leb128::parse_leb_i64;
use wasm_decoder::leb128::parse_leb_u32;
use wasm_decoder::leb128::parse_leb_u64;
use wasm_decoder::leb128::parse_u32_vec;

#[test]
fn varint_u32_single_byte_boundary() {
    let buf = vec![0x7F];
    assert_eq!(parse_leb_u32(&buf, 0, 1), Ok((127, 1)));
}

#[test]
fn varint_u32_two_bytes() {
    let buf = vec![0xFF, 0x01];
    assert_eq!(parse_leb_u32(&buf, 0, 2), Ok((255, 2)));
}

#[test]
fn varint_u32_zero() {
    let buf = vec![0x00];
    assert_eq!(parse_leb_u32(&buf, 0, 1), Ok((0, 1)));
}

#[test]
fn varint_u32_max() {
    let buf = vec![0xFF, 0xFF, 0xFF, 0xFF, 0x0F];
    assert_eq!(parse_leb_u32(&buf, 0, 5), Ok((u32::MAX, 5)));
}

#[test]
fn varint_u32_unterminated_fails() {
    let buf = vec![0x80, 0x80, 0x80];
    assert_eq!(parse_leb_u32(&buf, 0, 3), Err(DecodeError::MalformedVarint));
}

#[test]
fn varint_u32_empty_fails() {
    let buf: Vec<u8> = vec![];
    assert_eq!(parse_leb_u32(&buf, 0, 0), Err(DecodeError::MalformedVarint));
}

#[test]
fn varint_u32_overlong_fails() {
    let buf = vec![0x80, 0x80, 0x80, 0x80, 0x80, 0x01];
    assert_eq!(parse_leb_u32(&buf, 0, 6), Err(DecodeError::MalformedVarint));
}

#[test]
fn varint_u32_overflow_fails() {
    // five bytes carrying 2^35 - 1, beyond any 32-bit value
    let buf = vec![0xFF, 0xFF, 0xFF, 0xFF, 0x7F];
    assert_eq!(parse_leb_u32(&buf, 0, 5), Err(DecodeError::MalformedVarint));
}

#[test]
fn varint_u64_ten_bytes() {
    let buf = vec![0x80, 0x80, 0x80, 0x80, 0x80, 0x80, 0x80, 0x80, 0x80, 0x01];
    assert_eq!(parse_leb_u64(&buf, 0, 10), Ok((1u64 << 63, 10)));
}

#[test]
fn varint_u64_overflow_fails() {
    let buf = vec![0x80, 0x80, 0x80, 0x80, 0x80, 0x80, 0x80, 0x80, 0x80, 0x7F];
    assert_eq!(parse_leb_u64(&buf, 0, 10), Err(DecodeError::MalformedVarint));
}

#[test]
fn varint_i32_negative_one() {
    let buf = vec![0x7F];
    assert_eq!(parse_leb_i32(&buf, 0, 1), Ok((-1, 1)));
}

#[test]
fn varint_i32_sign_bit() {
    let buf = vec![0x40];
    assert_eq!(parse_leb_i32(&buf, 0, 1), Ok((-64, 1)));
}

#[test]
fn varint_i32_two_byte_positive() {
    // 64 needs a second byte: the one-byte form would read the sign bit
    let buf = vec![0xC0, 0x00];
    assert_eq!(parse_leb_i32(&buf, 0, 2), Ok((64, 2)));
}

#[test]
fn varint_i32_min_max() {
    let min = vec![0x80, 0x80, 0x80, 0x80, 0x78];
    assert_eq!(parse_leb_i32(&min, 0, 5), Ok((i32::MIN, 5)));
    let max = vec![0xFF, 0xFF, 0xFF, 0xFF, 0x07];
    assert_eq!(parse_leb_i32(&max, 0, 5), Ok((i32::MAX, 5)));
}

#[test]
fn varint_i32_out_of_range_fails() {
    // 2^31 fits a 5-byte signed encoding but not a 32-bit signed value
    let buf = vec![0x80, 0x80, 0x80, 0x80, 0x08];
    assert_eq!(parse_leb_i32(&buf, 0, 5), Err(DecodeError::MalformedVarint));
}

#[test]
fn varint_i64_negative_one() {
    let buf = vec![0x7F];
    assert_eq!(parse_leb_i64(&buf, 0, 1), Ok((-1, 1)));
}

#[test]
fn varint_i64_large_negative() {
    let buf = vec![0x80, 0x80, 0x80, 0x80, 0x80, 0x80, 0x80, 0x80, 0x80, 0x7F];
    assert_eq!(parse_leb_i64(&buf, 0, 10), Ok((i64::MIN, 10)));
}

#[test]
fn varint_cursor_offset() {
    // the reader starts where the cursor points, not at the buffer start
    let buf = vec![0xAA, 0xBB, 0x05];
    assert_eq!(parse_leb_u32(&buf, 2, 3), Ok((5, 3)));
}

#[test]
fn u32_vec_counted() {
    let buf = vec![0x03, 0x07, 0x80, 0x01, 0x00];
    assert_eq!(parse_u32_vec(&buf, 0, 5), Ok((vec![7, 128, 0], 5)));
}

#[test]
fn u32_vec_short_count_fails() {
    let buf = vec![0x03, 0x07];
    assert_eq!(parse_u32_vec(&buf, 0, 2), Err(DecodeError::MalformedVarint));
}
