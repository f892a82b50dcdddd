use noteflow_backend::text::{parse_i64_decimal, parse_u64_digits};

#[test]
fn unsigned_decimal_parsing() {
    assert_eq!(parse_u64_digits("0"), Some(0));
    assert_eq!(parse_u64_digits("42"), Some(42));
    assert_eq!(parse_u64_digits("007"), Some(7));
    assert_eq!(parse_u64_digits("18446744073709551615"), Some(u64::MAX));
    assert_eq!(parse_u64_digits("18446744073709551616"), None);
    assert_eq!(parse_u64_digits("99999999999999999999999"), None);
    assert_eq!(parse_u64_digits(""), None);
    assert_eq!(parse_u64_digits("12a"), None);
    assert_eq!(parse_u64_digits("-1"), None);
    assert_eq!(parse_u64_digits(" 1"), None);
}

#[test]
fn signed_decimal_parsing() {
    assert_eq!(parse_i64_decimal("86400"), Some(86400));
    assert_eq!(parse_i64_decimal("-1"), Some(-1));
    assert_eq!(parse_i64_decimal("-0"), Some(0));
    assert_eq!(parse_i64_decimal("9223372036854775807"), Some(i64::MAX));
    assert_eq!(parse_i64_decimal("9223372036854775808"), None);
    assert_eq!(parse_i64_decimal("-9223372036854775808"), Some(i64::MIN));
    assert_eq!(parse_i64_decimal("-9223372036854775809"), None);
    assert_eq!(parse_i64_decimal("-"), None);
    assert_eq!(parse_i64_decimal(""), None);
    assert_eq!(parse_i64_decimal("+5"), None);
}
