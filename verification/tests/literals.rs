use b_lang::codegen_common::{
    parse_char_literal_to_u16_be, parse_char_literal_to_u16_le, parse_char_literal_to_u64_le, parse_char_literal_to_u8,
    parse_int_literal_to_u16, parse_int_literal_to_u64, parse_int_literal_to_u8,
};
use b_lang::errors::{bump_error_count, MAX_ERROR_COUNT};
use b_lang::ir::Radix;
use b_lang::numparse::strtoull_at;

#[test]
fn test_int_literals_in_each_radix() {
    assert_eq!(parse_int_literal_to_u64(b"1234", Radix::Dec), Some(1234));
    assert_eq!(parse_int_literal_to_u64(b"17", Radix::Oct), Some(15));
    assert_eq!(parse_int_literal_to_u64(b"fF", Radix::Hex), Some(255));
    assert_eq!(parse_int_literal_to_u64(b"", Radix::Dec), Some(0));
}

#[test]
fn test_int_literal_limits() {
    assert_eq!(parse_int_literal_to_u64(b"18446744073709551615", Radix::Dec), Some(u64::MAX));
    assert_eq!(parse_int_literal_to_u64(b"18446744073709551616", Radix::Dec), None);
    assert_eq!(parse_int_literal_to_u16(b"65535", Radix::Dec), Ok(65535));
    assert_eq!(parse_int_literal_to_u16(b"65536", Radix::Dec), Err(()));
    assert_eq!(parse_int_literal_to_u16(b"FFFF", Radix::Hex), Ok(0xFFFF));
    assert_eq!(parse_int_literal_to_u8(b"255", Radix::Dec), Ok(255));
    assert_eq!(parse_int_literal_to_u8(b"256", Radix::Dec), Err(()));
}

#[test]
fn test_char_literals_little_and_big_endian() {
    assert_eq!(parse_char_literal_to_u16_le(b"ab"), Ok(0x6261));
    assert_eq!(parse_char_literal_to_u16_be(b"ab"), Ok(0x6162));
    assert_eq!(parse_char_literal_to_u16_le(b"a"), Ok(0x61));
    assert_eq!(parse_char_literal_to_u16_be(b"a"), Ok(0x61));
    assert_eq!(parse_char_literal_to_u16_le(b"abc"), Err(()));
    assert_eq!(parse_char_literal_to_u16_be(b"abc"), Err(()));
    assert_eq!(parse_char_literal_to_u8(b"a"), Ok(0x61));
    assert_eq!(parse_char_literal_to_u8(b"ab"), Err(()));
    assert_eq!(parse_char_literal_to_u64_le(b"abcdefgh"), Some(0x6867666564636261));
    assert_eq!(parse_char_literal_to_u64_le(b"abcdefghi"), None);
}

#[test]
fn test_char_constant_bytes_in_written_order() {
    let v = parse_char_literal_to_u16_le(b"AB").unwrap();
    assert_eq!(v.to_le_bytes(), [b'A', b'B']);
    let v = parse_char_literal_to_u16_le(b"A").unwrap();
    assert_eq!(v.to_le_bytes(), [b'A', 0]);
}

#[test]
fn test_error_count_stops_at_limit() {
    let mut count: usize = 0;
    for _ in 0..MAX_ERROR_COUNT - 1 {
        assert!(bump_error_count(&mut count).is_some());
    }
    assert_eq!(count, MAX_ERROR_COUNT - 1);
    assert!(bump_error_count(&mut count).is_none());
    assert_eq!(count, MAX_ERROR_COUNT);
    assert!(bump_error_count(&mut count).is_none());
    assert_eq!(count, MAX_ERROR_COUNT + 1);
}

#[test]
fn test_strtoull_like_the_c_library() {
    assert_eq!(strtoull_at(b"  42xyz", 0, 10), (42, 4));
    assert_eq!(strtoull_at(b"ff", 0, 16), (255, 2));
    assert_eq!(strtoull_at(b"0x1A", 0, 16), (26, 4));
    assert_eq!(strtoull_at(b"0xg", 0, 16), (0, 1));
    assert_eq!(strtoull_at(b"+7", 0, 10), (7, 2));
    assert_eq!(strtoull_at(b"-1", 0, 10), (u64::MAX, 2));
    assert_eq!(strtoull_at(b"zz", 0, 10), (0, 0));
    assert_eq!(strtoull_at(b"99999999999999999999999", 0, 10), (u64::MAX, 23));
}
