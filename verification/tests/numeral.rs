use f1_sql_updater::numeral::{
    check_decimal_numeral, parse_i32_field, parse_u16_decimal, parse_u16_field, parse_u32_field,
    render_decimal, render_zero_padded,
};

#[test]
fn numbers_are_written_in_decimal() {
    assert_eq!(render_decimal(0), "0");
    assert_eq!(render_decimal(7), "7");
    assert_eq!(render_decimal(1062), "1062");
    assert_eq!(render_decimal(u64::MAX), "18446744073709551615");
}

#[test]
fn numbers_are_padded_with_zeros() {
    assert_eq!(render_zero_padded(7, 3), "007");
    assert_eq!(render_zero_padded(45, 2), "45");
    assert_eq!(render_zero_padded(456, 2), "456");
    assert_eq!(render_zero_padded(0, 0), "0");
}

#[test]
fn signed_fields_are_read() {
    assert_eq!(parse_i32_field(b"0"), Some(0));
    assert_eq!(parse_i32_field(b"830"), Some(830));
    assert_eq!(parse_i32_field(b"+5"), Some(5));
    assert_eq!(parse_i32_field(b"-12"), Some(-12));
    assert_eq!(parse_i32_field(b"000000000000000000017"), Some(17));
    assert_eq!(parse_i32_field(b"2147483647"), Some(i32::MAX));
    assert_eq!(parse_i32_field(b"-2147483648"), Some(i32::MIN));
}

#[test]
fn signed_fields_out_of_range_or_malformed_are_refused() {
    assert_eq!(parse_i32_field(b"2147483648"), None);
    assert_eq!(parse_i32_field(b"-2147483649"), None);
    assert_eq!(parse_i32_field(b""), None);
    assert_eq!(parse_i32_field(b"+"), None);
    assert_eq!(parse_i32_field(b"-"), None);
    assert_eq!(parse_i32_field(b"++1"), None);
    assert_eq!(parse_i32_field(b" 1"), None);
    assert_eq!(parse_i32_field(b"1 "), None);
    assert_eq!(parse_i32_field(b"1.0"), None);
    assert_eq!(parse_i32_field(b"abc"), None);
}

#[test]
fn unsigned_fields_are_read() {
    assert_eq!(parse_u16_field(b"65535"), Some(u16::MAX));
    assert_eq!(parse_u16_field(b"65536"), None);
    assert_eq!(parse_u16_field(b"-1"), None);
    assert_eq!(parse_u16_field(b"-0"), None);
    assert_eq!(parse_u16_field(b"+44"), Some(44));
    assert_eq!(parse_u32_field(b"4294967295"), Some(u32::MAX));
    assert_eq!(parse_u32_field(b"4294967296"), None);
    assert_eq!(parse_u32_field(b"99999999999999999999999"), None);
}

#[test]
fn fields_behind_0x_are_read_in_hexadecimal() {
    assert_eq!(parse_u16_field(b"0x1f"), Some(31));
    assert_eq!(parse_u16_field(b"0xFF"), Some(255));
    assert_eq!(parse_i32_field(b"0x-10"), Some(-16));
    assert_eq!(parse_u16_field(b"0x"), None);
    assert_eq!(parse_u16_field(b"0X1f"), None);
    assert_eq!(parse_u16_field(b"1f"), None);
    assert_eq!(parse_u16_field(b"0x10000"), None);
}

#[test]
fn decimal_texts_take_no_hexadecimal() {
    assert_eq!(parse_u16_decimal(b"12"), Some(12));
    assert_eq!(parse_u16_decimal(b"0x1f"), None);
    assert_eq!(parse_u16_decimal(b"R"), None);
    assert_eq!(parse_u16_decimal(b""), None);
}

#[test]
fn decimal_numerals_are_told_apart() {
    assert!(check_decimal_numeral(b"218.300"));
    assert!(check_decimal_numeral(b"218"));
    assert!(check_decimal_numeral(b"218."));
    assert!(check_decimal_numeral(b".5"));
    assert!(check_decimal_numeral(b"-0.5"));
    assert!(check_decimal_numeral(b"+3"));
    assert!(!check_decimal_numeral(b""));
    assert!(!check_decimal_numeral(b"."));
    assert!(!check_decimal_numeral(b"-"));
    assert!(!check_decimal_numeral(b"1.2.3"));
    assert!(!check_decimal_numeral(b"1e3"));
    assert!(!check_decimal_numeral(b"fast"));
    assert!(!check_decimal_numeral(b"1-2"));
}
