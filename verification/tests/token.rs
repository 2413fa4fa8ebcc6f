use std::collections::HashSet;
use tauri_plugin_hid::error::Error;
use tauri_plugin_hid::token::{format_token, parse_token, TokenSource, TOKEN_LEN};

#[test]
fn token_text_has_thirty_two_digits() {
    assert_eq!(TOKEN_LEN, 32);
    assert_eq!(format_token(0), "00000000000000000000000000000000");
    assert_eq!(format_token(1), "00000000000000000000000000000001");
    assert_eq!(format_token(255), "000000000000000000000000000000ff");
    assert_eq!(format_token(u128::MAX), "ffffffffffffffffffffffffffffffff");
    assert_eq!(
        format_token(0x0123_4567_89ab_cdef_fedc_ba98_7654_3210),
        "0123456789abcdeffedcba9876543210"
    );
    assert_eq!(format_token(1 << 127), "80000000000000000000000000000000");
}

#[test]
fn token_text_reads_back() {
    let values = [
        0u128,
        1,
        9,
        10,
        15,
        16,
        0xdead_beef,
        u64::MAX as u128,
        (u64::MAX as u128) + 1,
        0x0123_4567_89ab_cdef_fedc_ba98_7654_3210,
        u128::MAX - 1,
        u128::MAX,
    ];
    for value in values {
        let text = format_token(value);
        assert_eq!(text.len(), 32);
        assert_eq!(parse_token(&text).ok(), Some(value));
    }
}

#[test]
fn known_text_reads_as_its_number() {
    assert_eq!(parse_token("00000000000000000000000000000000").ok(), Some(0));
    assert_eq!(parse_token("0000000000000000000000000000002a").ok(), Some(42));
    assert_eq!(parse_token("10000000000000000000000000000000").ok(), Some(1 << 124));
    assert_eq!(parse_token("ffffffffffffffffffffffffffffffff").ok(), Some(u128::MAX));
}

#[test]
fn text_of_another_length_is_no_token() {
    assert!(matches!(parse_token(""), Err(Error::HidDeviceUuidInvalidFormat)));
    assert!(matches!(parse_token("0"), Err(Error::HidDeviceUuidInvalidFormat)));
    assert!(matches!(
        parse_token("0000000000000000000000000000000"),
        Err(Error::HidDeviceUuidInvalidFormat)
    ));
    assert!(matches!(
        parse_token("000000000000000000000000000000000"),
        Err(Error::HidDeviceUuidInvalidFormat)
    ));
}

#[test]
fn text_with_other_characters_is_no_token() {
    assert!(matches!(
        parse_token("0000000000000000000000000000000g"),
        Err(Error::HidDeviceUuidInvalidFormat)
    ));
    assert!(matches!(
        parse_token("0000000000000000000000000000000A"),
        Err(Error::HidDeviceUuidInvalidFormat)
    ));
    assert!(matches!(
        parse_token("FFFFFFFFFFFFFFFFFFFFFFFFFFFFFFFF"),
        Err(Error::HidDeviceUuidInvalidFormat)
    ));
    assert!(matches!(
        parse_token(" 000000000000000000000000000000a"),
        Err(Error::HidDeviceUuidInvalidFormat)
    ));
    assert!(matches!(
        parse_token("0000000000000000000000000000000\u{e9}"),
        Err(Error::HidDeviceUuidInvalidFormat)
    ));
    assert!(matches!(
        parse_token("/dev/hidraw0/dev/hidraw0/dev/hid"),
        Err(Error::HidDeviceUuidInvalidFormat)
    ));
}

#[test]
fn hyphenated_text_is_no_token() {
    assert!(matches!(
        parse_token("01234567-89ab-cdef-fedc-ba9876543210"),
        Err(Error::HidDeviceUuidInvalidFormat)
    ))
}

#[test]
fn ten_thousand_tokens_are_distinct() {
    let mut source = TokenSource::new();
    let mut values = HashSet::new();
    let mut texts = HashSet::new();
    for _ in 0..10_000 {
        let value = source.issue().expect("a token");
        assert!(values.insert(value));
        assert!(texts.insert(format_token(value)));
    }
    assert_eq!(values.len(), 10_000);
    assert_eq!(texts.len(), 10_000);
}

#[test]
fn tokens_count_up_from_zero() {
    let mut source = TokenSource::new();
    assert!(!source.exhausted());
    assert_eq!(source.issue(), Some(0));
    assert_eq!(source.issue(), Some(1));
    assert_eq!(source.take(), 2);
    assert_eq!(source.issue(), Some(3));
    assert!(!source.exhausted());
}
