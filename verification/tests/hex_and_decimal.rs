use beacon::decimal::{i64_to_dec, u128_to_dec};
use beacon::hexfmt::{hex_encode, parse_hex_u64, u64_to_hex};

#[test]
fn u64_hex_renders_minimal_lowercase() {
    assert_eq!(u64_to_hex(0), "0");
    assert_eq!(u64_to_hex(10), "a");
    assert_eq!(u64_to_hex(0x1a2b), "1a2b");
    assert_eq!(u64_to_hex(u64::MAX), "ffffffffffffffff");
}

#[test]
fn u64_hex_parses_both_cases() {
    assert_eq!(parse_hex_u64("0"), Some(0));
    assert_eq!(parse_hex_u64("1a2b"), Some(0x1a2b));
    assert_eq!(parse_hex_u64("DEADBEEF"), Some(0xdead_beef));
    assert_eq!(parse_hex_u64("dEaDbEeF"), Some(0xdead_beef));
    assert_eq!(parse_hex_u64("ffffffffffffffff"), Some(u64::MAX));
    // Leading zeros denote the same value.
    assert_eq!(parse_hex_u64("0000ff"), Some(0xff));
}

#[test]
fn u64_hex_rejects_bad_input() {
    assert_eq!(parse_hex_u64(""), None);
    assert_eq!(parse_hex_u64("12g4"), None);
    assert_eq!(parse_hex_u64("-1"), None);
    assert_eq!(parse_hex_u64("10000000000000000"), None);
    assert_eq!(parse_hex_u64("caf\u{00e9}"), None);
}

#[test]
fn u64_hex_round_trips() {
    for v in [0u64, 1, 15, 16, 255, 4096, 0x0123_4567_89ab_cdef, u64::MAX] {
        assert_eq!(parse_hex_u64(&u64_to_hex(v)), Some(v));
    }
}

#[test]
fn byte_hex_is_two_digits_per_byte() {
    assert_eq!(hex_encode(&[]), "");
    assert_eq!(hex_encode(&[0x00, 0x0f, 0xf0, 0xff]), "000ff0ff");
    assert_eq!(hex_encode(&[0xbe, 0xef]), "beef");
}

#[test]
fn decimal_renders_exactly() {
    assert_eq!(u128_to_dec(0), "0");
    assert_eq!(u128_to_dec(12345), "12345");
    assert_eq!(
        u128_to_dec(u128::MAX),
        "340282366920938463463374607431768211455"
    );
    assert_eq!(i64_to_dec(0), "0");
    assert_eq!(i64_to_dec(-1), "-1");
    assert_eq!(i64_to_dec(i64::MIN), "-9223372036854775808");
    assert_eq!(i64_to_dec(i64::MAX), "9223372036854775807");
}
