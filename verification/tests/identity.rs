use mazda_auth::identity::{
    derive_device_id, device_id_from_digest, DEVICE_PREFIX, DIGEST_PREFIX_LEN,
};
use mazda_auth::numeral::{parse_hex_i32, push_decimal, push_decimal_i32, ParseError};

#[test]
fn device_id_is_the_same_on_every_call() {
    let first = derive_device_id("bob@example.com");
    let second = derive_device_id("bob@example.com");
    assert_eq!(first, second);
    assert!(first.is_ok());
}

#[test]
fn device_id_is_prefix_and_decimal() {
    // SHA-256("bob@example.com") starts with 5ff860bf = 1610113215.
    assert_eq!(derive_device_id("bob@example.com"), Ok("ACCT1610113215".to_string()));
    // SHA-256("hello") starts with 2cf24dba = 754077114.
    assert_eq!(derive_device_id("hello"), Ok("ACCT754077114".to_string()));
    // SHA-256("test@example.org") starts with 388c735e = 948728670.
    assert_eq!(derive_device_id("test@example.org"), Ok("ACCT948728670".to_string()));
}

#[test]
fn device_id_constants() {
    assert_eq!(DEVICE_PREFIX, "ACCT");
    assert_eq!(DIGEST_PREFIX_LEN, 8);
}

#[test]
fn device_id_matches_the_pattern() {
    let id = derive_device_id("hello").unwrap();
    assert!(id.starts_with("ACCT"));
    let number: i32 = id["ACCT".len()..].parse().unwrap();
    assert!(number >= 0);
    assert_eq!(format!("ACCT{}", number), id);
}

#[test]
fn device_id_of_user_at_example_com() {
    // SHA-256("user@example.com") starts with b4c9a289 = 3033113225, which
    // is above i32::MAX: this account has no device identifier.
    assert_eq!(derive_device_id("user@example.com"), Err(ParseError::Overflow));
}

#[test]
fn device_id_fails_rather_than_wraps() {
    // The empty text hashes to e3b0c442..., "a" to ca978112...
    assert_eq!(derive_device_id(""), Err(ParseError::Overflow));
    assert_eq!(derive_device_id("a"), Err(ParseError::Overflow));
    assert_eq!(derive_device_id("driver@example.com"), Err(ParseError::Overflow));
}

#[test]
fn device_id_from_digest_at_the_boundary() {
    let below = "7fffffff00000000000000000000000000000000000000000000000000000000";
    let above = "8000000000000000000000000000000000000000000000000000000000000000";
    let top = "ffffffff00000000000000000000000000000000000000000000000000000000";
    let zero = "00000000ffffffffffffffffffffffffffffffffffffffffffffffffffffffff";
    assert_eq!(device_id_from_digest(below), Ok("ACCT2147483647".to_string()));
    assert_eq!(device_id_from_digest(above), Err(ParseError::Overflow));
    assert_eq!(device_id_from_digest(top), Err(ParseError::Overflow));
    assert_eq!(device_id_from_digest(zero), Ok("ACCT0".to_string()));
}

#[test]
fn device_id_from_digest_reads_eight_characters_only() {
    assert_eq!(device_id_from_digest("0000000f"), Ok("ACCT15".to_string()));
    assert_eq!(device_id_from_digest("0000000fzz"), Ok("ACCT15".to_string()));
    assert_eq!(device_id_from_digest("0000000g"), Err(ParseError::InvalidDigit));
    assert_eq!(device_id_from_digest("\u{e9}0000000"), Err(ParseError::InvalidDigit));
}

#[test]
fn parse_hex_reads_both_cases() {
    assert_eq!(parse_hex_i32("0"), Ok(0));
    assert_eq!(parse_hex_i32("ff"), Ok(255));
    assert_eq!(parse_hex_i32("FF"), Ok(255));
    assert_eq!(parse_hex_i32("aBcD"), Ok(0xabcd));
    assert_eq!(parse_hex_i32("5ff860bf"), Ok(1610113215));
    assert_eq!(parse_hex_i32("0000000000000000007f"), Ok(127));
}

#[test]
fn parse_hex_refuses_what_is_no_number() {
    assert_eq!(parse_hex_i32(""), Err(ParseError::Empty));
    assert_eq!(parse_hex_i32("g"), Err(ParseError::InvalidDigit));
    assert_eq!(parse_hex_i32("-1"), Err(ParseError::InvalidDigit));
    assert_eq!(parse_hex_i32("+1"), Err(ParseError::InvalidDigit));
    assert_eq!(parse_hex_i32("12 "), Err(ParseError::InvalidDigit));
    assert_eq!(parse_hex_i32("0x10"), Err(ParseError::InvalidDigit));
    // A character that is no digit counts before the size of the number.
    assert_eq!(parse_hex_i32("ffffffffffg"), Err(ParseError::InvalidDigit));
}

#[test]
fn parse_hex_overflow_boundary() {
    assert_eq!(parse_hex_i32("7fffffff"), Ok(i32::MAX));
    assert_eq!(parse_hex_i32("80000000"), Err(ParseError::Overflow));
    assert_eq!(parse_hex_i32("ffffffff"), Err(ParseError::Overflow));
    assert_eq!(parse_hex_i32("100000000"), Err(ParseError::Overflow));
    assert_eq!(parse_hex_i32("ffffffffffffffffffffffffffffffff"), Err(ParseError::Overflow));
    assert_eq!(parse_hex_i32("007fffffff"), Ok(i32::MAX));
}

#[test]
fn decimal_of_unsigned() {
    let mut out = String::new();
    push_decimal(&mut out, 0);
    assert_eq!(out, "0");
    let mut out = String::from("t=");
    push_decimal(&mut out, 1700000000);
    assert_eq!(out, "t=1700000000");
    let mut out = String::new();
    push_decimal(&mut out, u64::MAX);
    assert_eq!(out, "18446744073709551615");
    let mut out = String::new();
    push_decimal(&mut out, 10);
    push_decimal(&mut out, 9);
    assert_eq!(out, "109");
}

#[test]
fn decimal_of_signed() {
    let mut out = String::new();
    push_decimal_i32(&mut out, -1);
    assert_eq!(out, "-1");
    let mut out = String::new();
    push_decimal_i32(&mut out, i32::MIN);
    assert_eq!(out, "-2147483648");
    let mut out = String::new();
    push_decimal_i32(&mut out, i32::MAX);
    assert_eq!(out, "2147483647");
    let mut out = String::from("ACCT");
    push_decimal_i32(&mut out, 0);
    assert_eq!(out, "ACCT0");
}
