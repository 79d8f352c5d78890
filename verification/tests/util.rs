//! Arithmetic helpers, error numbers, texts.

use rblk::error::{to_result, Errno, EINVAL, EIO, ENOMEM};
use rblk::text::{decimal, parse_signed, parse_unsigned, signed_decimal, trim};
use rblk::util::{
    align_down, align_up, bytes_to_sectors, is_power_of_two, mib_to_sectors, sectors_to_bytes,
};

#[test]
fn powers_of_two() {
    assert!(!is_power_of_two(0u32));
    assert!(is_power_of_two(1u32));
    assert!(!is_power_of_two(3u32));
    assert!(is_power_of_two(1u32 << 31));
    assert!(is_power_of_two(1u64 << 63));
    assert!(!is_power_of_two(u64::MAX));
}

#[test]
fn rounding_to_multiples() {
    assert_eq!(align_down(4097u64, 4096), 4096);
    assert_eq!(align_down(4095u64, 4096), 0);
    assert_eq!(align_up(4097u64, 4096), 8192);
    assert_eq!(align_up(4096u64, 4096), 4096);
    assert_eq!((align_up(0u64, 4096), align_up(0u32, 1)), (0, 0));
    assert_eq!(align_up(1u32, 8), 8);
    for value in [1u32, 7, 8, 9, 4095, 4096] {
        for to in [1u32, 2, 8, 512] {
            let down = align_down(value, to);
            let up = align_up(value, to);
            assert!(down <= value && value <= up);
            assert_eq!(down % to, 0);
            assert_eq!(up % to, 0);
            assert!(up - down == 0 || up - down == to);
        }
    }
}

#[test]
fn units_are_converted() {
    assert_eq!(mib_to_sectors(1u32), 2048);
    assert_eq!(mib_to_sectors(4096u64), 8_388_608);
    assert_eq!(mib_to_sectors(1u32 << 21), 0);
    assert_eq!(sectors_to_bytes(3u64), 1536);
    assert_eq!(bytes_to_sectors(4096u32), 8);
    assert_eq!(bytes_to_sectors(511u64), 0);
    assert_eq!(bytes_to_sectors(sectors_to_bytes(8u32)), 8);
}

#[test]
fn error_numbers() {
    assert_eq!(Errno::from_errno(-5), Errno(EIO));
    assert_eq!(Errno::from_errno(0), Errno(EINVAL));
    assert_eq!(Errno::from_errno(7), Errno(EINVAL));
    assert_eq!(Errno::from_errno(-4096), Errno(EINVAL));
    assert_eq!(Errno::from_errno(-4095).to_errno(), -4095);
    assert_eq!(to_result(0), Ok(()));
    assert_eq!(to_result(3), Ok(()));
    assert_eq!(to_result(-12), Err(Errno(ENOMEM)));
}

#[test]
fn numbers_as_text() {
    assert_eq!(decimal(0), b"0");
    assert_eq!(decimal(1024), b"1024");
    assert_eq!(decimal(u64::MAX), b"18446744073709551615");
    assert_eq!(signed_decimal(-1), b"-1");
    assert_eq!(signed_decimal(i64::MIN), b"-9223372036854775808");
    assert_eq!(signed_decimal(42), b"42");
}

#[test]
fn texts_as_numbers() {
    assert_eq!(parse_unsigned(b"42", 255), Some(42));
    assert_eq!(parse_unsigned(b"+42", 255), Some(42));
    assert_eq!(parse_unsigned(b"-42", 255), None);
    assert_eq!(parse_unsigned(b"", 255), None);
    assert_eq!(parse_unsigned(b"+", 255), None);
    assert_eq!(parse_unsigned(b"256", 255), None);
    assert_eq!(parse_unsigned(b"0000255", 255), Some(255));
    assert_eq!(parse_unsigned(b"4 2", 255), None);
    assert_eq!(parse_unsigned(b"18446744073709551615", u64::MAX), Some(u64::MAX));
    assert_eq!(parse_unsigned(b"18446744073709551616", u64::MAX), None);
    assert_eq!(parse_signed(b"-128", 127), Some(-128));
    assert_eq!(parse_signed(b"-129", 127), None);
    assert_eq!(parse_signed(b"127", 127), Some(127));
    assert_eq!(parse_signed(b"128", 127), None);
    assert_eq!(parse_signed(b"-9223372036854775808", i64::MAX), Some(i64::MIN));
}

#[test]
fn numbers_are_read_as_they_were_written() {
    for n in [0u64, 9, 10, 99, 100, 12_345, u64::MAX] {
        assert_eq!(parse_unsigned(&decimal(n), u64::MAX), Some(n));
    }
    for n in [0i64, -1, -10, 10, i64::MAX, i64::MIN] {
        assert_eq!(parse_signed(&signed_decimal(n), i64::MAX), Some(n));
    }
}

#[test]
fn white_space_is_trimmed() {
    assert_eq!(trim(b"  12\n"), b"12");
    assert_eq!(trim(b"\t\r\n "), b"");
    assert_eq!(trim("\u{a0}7\u{3000}".as_bytes()), b"7");
    assert_eq!(trim("\u{2028}1 2\u{85}".as_bytes()), b"1 2");
    assert_eq!(trim(b"a b"), b"a b");
    for text in ["", " x ", "\u{2003}x\u{2004}", "\u{1680}", "\u{205f}y", "\u{200b}z"] {
        assert_eq!(trim(text.as_bytes()), text.trim().as_bytes());
    }
}
