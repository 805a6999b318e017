use firefox_memlimit::decimal::{decimal_line, parse_u64, IntError};
use firefox_memlimit::size::{effective_limit, parse_mem, DEFAULT_LIMIT};

#[test]
fn gibibytes_scale_by_two_to_the_thirty() {
    assert_eq!(parse_mem("2G"), Ok(2147483648));
}

#[test]
fn mebibytes_scale_by_two_to_the_twenty() {
    assert_eq!(parse_mem("512M"), Ok(536870912));
}

#[test]
fn plain_number_is_bytes() {
    assert_eq!(parse_mem("100"), Ok(100));
}

#[test]
fn kibibytes_and_tebibytes() {
    assert_eq!(parse_mem("1K"), Ok(1024));
    assert_eq!(parse_mem("3T"), Ok(3 * 1099511627776));
}

#[test]
fn leading_zeros_and_plus_are_read() {
    assert_eq!(parse_mem("007K"), Ok(7168));
    assert_eq!(parse_mem("+5K"), Ok(5120));
}

#[test]
fn non_numeric_prefix_is_rejected() {
    assert_eq!(parse_mem("abcK"), Err(IntError::InvalidDigit));
    assert_eq!(parse_mem("1.5G"), Err(IntError::InvalidDigit));
    assert_eq!(parse_mem("-5M"), Err(IntError::InvalidDigit));
    assert_eq!(parse_mem("+G"), Err(IntError::InvalidDigit));
}

#[test]
fn lower_case_unit_is_not_a_unit() {
    assert_eq!(parse_mem("12k"), Err(IntError::InvalidDigit));
}

#[test]
fn empty_number_part() {
    assert_eq!(parse_mem(""), Err(IntError::Empty));
    assert_eq!(parse_mem("K"), Err(IntError::Empty));
}

#[test]
fn non_ascii_last_character() {
    assert_eq!(parse_mem("5\u{e9}"), Err(IntError::InvalidDigit));
}

#[test]
fn number_too_large() {
    assert_eq!(parse_mem("18446744073709551615"), Ok(u64::MAX));
    assert_eq!(parse_mem("18446744073709551616"), Err(IntError::Overflow));
    assert_eq!(parse_mem("99999999999999999999x"), Err(IntError::Overflow));
}

#[test]
fn scaling_past_sixty_four_bits_drops_high_bits() {
    assert_eq!(parse_mem("17179869184G"), Ok(0));
    assert_eq!(parse_mem("17179869185G"), Ok(1073741824));
}

#[test]
fn default_limit_is_two_gibibytes() {
    assert_eq!(DEFAULT_LIMIT, "2G");
    assert_eq!(effective_limit(None), parse_mem("2G"));
    assert_eq!(effective_limit(None), Ok(2147483648));
}

#[test]
fn given_limit_is_read() {
    assert_eq!(effective_limit(Some("1M")), Ok(1048576));
    assert_eq!(effective_limit(Some("x")), Err(IntError::InvalidDigit));
}

#[test]
fn unsigned_reading_matches_std() {
    for s in ["", "+", "-", "0", "+0", "-0", "12a", "a12", "18446744073709551615", "18446744073709551616", "00042"] {
        let ours = parse_u64(s.as_bytes()).ok();
        let std_result = s.parse::<u64>().ok();
        assert_eq!(ours, std_result, "{:?}", s);
    }
    assert_eq!(parse_u64(b"+"), Err(IntError::InvalidDigit));
}

#[test]
fn error_messages() {
    assert_eq!(IntError::Empty.message(), "cannot parse integer from empty string");
    assert_eq!(IntError::InvalidDigit.message(), "invalid digit found in string");
    assert_eq!(IntError::Overflow.message(), "number too large to fit in target type");
}

#[test]
fn decimal_lines() {
    assert_eq!(decimal_line(0), b"0\n".to_vec());
    assert_eq!(decimal_line(2147483648), b"2147483648\n".to_vec());
    assert_eq!(decimal_line(u64::MAX), b"18446744073709551615\n".to_vec());
}
