use atoi_unsigned::{crust_atoi, parse_unsigned, pow10_table, Atoi, ParseError};

#[test]
fn test_crust_atoi() {
    let st = "100";

    assert_eq!(crust_atoi(st), Ok(100));

    let ss = "1234";
    assert_eq!(crust_atoi(ss), Ok(1234));

    let sss = "4";
    assert_eq!(crust_atoi(sss), Ok(4));
}

#[test]
fn test_rust_atoi() {
    assert_eq!(u32::atoi("987654"), Ok(987654));
    assert_eq!(u16::atoi("1234"), Ok(1234));
    assert_eq!(u64::atoi("123"), Ok(123));
    assert_eq!(u32::atoi("12"), Ok(12u32));
    assert_eq!(u16::atoi("1e3"), Err(()));
}

#[test]
fn test_atoi_every_width() {
    assert_eq!(u8::atoi("255"), Ok(255u8));
    assert_eq!(u16::atoi("65535"), Ok(65535u16));
    assert_eq!(u32::atoi("4294967295"), Ok(4294967295u32));
    assert_eq!(u64::atoi("18446744073709551615"), Ok(u64::MAX));
    assert_eq!(usize::atoi("123"), Ok(123usize));
}

#[test]
fn test_parse_digit_strings() {
    assert_eq!(parse_unsigned::<u64>(b"0"), Ok(0));
    assert_eq!(parse_unsigned::<u64>(b"7"), Ok(7));
    assert_eq!(parse_unsigned::<u64>(b"42"), Ok(42));
    assert_eq!(parse_unsigned::<u64>(b"987654"), Ok(987654));
    assert_eq!(parse_unsigned::<u64>(b"12345678901234567890"), Ok(12345678901234567890));
}

#[test]
fn test_parse_leading_zeros_accepted() {
    assert_eq!(parse_unsigned::<u32>(b"054321"), Ok(54321));
    assert_eq!(parse_unsigned::<u32>(b"000"), Ok(0));
    assert_eq!(parse_unsigned::<u8>(b"00000000000000000255"), Ok(255u8));
}

#[test]
fn test_parse_twenty_digit_maximum() {
    assert_eq!(parse_unsigned::<u64>(b"18446744073709551615"), Ok(u64::MAX));
}

#[test]
fn test_parse_empty_input_is_zero() {
    assert_eq!(parse_unsigned::<u64>(b""), Ok(0));
    assert_eq!(parse_unsigned::<u8>(b""), Ok(0u8));
    assert_eq!(crust_atoi(""), Ok(0));
}

#[test]
fn test_parse_too_long() {
    assert_eq!(parse_unsigned::<u64>(b"000000000000000000000"), Err(ParseError::TooLong));
    assert_eq!(parse_unsigned::<u64>(b"123456789012345678901"), Err(ParseError::TooLong));
    assert_eq!(u64::atoi("000000000000000000000"), Err(()));
}

#[test]
fn test_parse_invalid_digit_reports_position() {
    assert_eq!(parse_unsigned::<u32>(b"12a4"), Err(ParseError::InvalidDigit(2)));
    assert_eq!(parse_unsigned::<u16>(b"1e3"), Err(ParseError::InvalidDigit(1)));
    assert_eq!(parse_unsigned::<u64>(b"/123"), Err(ParseError::InvalidDigit(0)));
    assert_eq!(parse_unsigned::<u64>(b"123:"), Err(ParseError::InvalidDigit(3)));
}

#[test]
fn test_parse_invalid_digit_every_position() {
    let digits = *b"1234567890";
    for i in 0..digits.len() {
        let mut bytes = digits;
        bytes[i] = b'x';
        assert_eq!(parse_unsigned::<u64>(&bytes), Err(ParseError::InvalidDigit(i)));
    }
}

#[test]
fn test_parse_first_invalid_digit_wins() {
    assert_eq!(parse_unsigned::<u64>(b"1a2b3c"), Err(ParseError::InvalidDigit(1)));
    assert_eq!(parse_unsigned::<u8>(b"99999999999999999x99"), Err(ParseError::InvalidDigit(17)));
}

#[test]
fn test_parse_overflow() {
    assert_eq!(parse_unsigned::<u8>(b"256"), Err(ParseError::Overflow));
    assert_eq!(parse_unsigned::<u8>(b"999"), Err(ParseError::Overflow));
    assert_eq!(parse_unsigned::<u16>(b"65536"), Err(ParseError::Overflow));
    assert_eq!(parse_unsigned::<u32>(b"4294967296"), Err(ParseError::Overflow));
    assert_eq!(parse_unsigned::<u64>(b"18446744073709551616"), Err(ParseError::Overflow));
    assert_eq!(parse_unsigned::<u64>(b"99999999999999999999"), Err(ParseError::Overflow));
    assert_eq!(u8::atoi("256"), Err(()));
}

#[test]
fn test_parse_just_fits_each_width() {
    assert_eq!(parse_unsigned::<u8>(b"255"), Ok(255u8));
    assert_eq!(parse_unsigned::<u16>(b"65535"), Ok(65535u16));
    assert_eq!(parse_unsigned::<u32>(b"4294967295"), Ok(4294967295u32));
    assert_eq!(parse_unsigned::<usize>(b"54321"), Ok(54321usize));
}

#[test]
fn test_table_idempotent() {
    assert_eq!(pow10_table::<u8>(), pow10_table::<u8>());
    assert_eq!(pow10_table::<u16>(), pow10_table::<u16>());
    assert_eq!(pow10_table::<u32>(), pow10_table::<u32>());
    assert_eq!(pow10_table::<u64>(), pow10_table::<u64>());
    assert_eq!(pow10_table::<usize>(), pow10_table::<usize>());
}

#[test]
fn test_table_u64_exact_values() {
    let t = pow10_table::<u64>();
    assert_eq!(t.len(), 20);
    assert_eq!(t[0], 10_000_000_000_000_000_000);
    assert_eq!(t[18], 10);
    assert_eq!(t[19], 1);
    for i in 0..19 {
        assert_eq!(t[i], 10 * t[i + 1]);
    }
}

#[test]
fn test_table_narrow_width_wraps() {
    let t = pow10_table::<u8>();
    assert_eq!(t.len(), 20);
    assert_eq!(t[19], 1u8);
    assert_eq!(t[18], 10u8);
    assert_eq!(t[17], 100u8);
    assert_eq!(t[16], (1000u64 % 256) as u8);
    assert_eq!(t[15], (10000u64 % 256) as u8);
    let w = pow10_table::<u16>();
    assert_eq!(w[15], 10000u16);
    assert_eq!(w[14], (100000u64 % 65536) as u16);
}
