use blocktimes::{decimal_string, hex_quantity, parse_hex_u64, FetchError};

fn assert_malformed(input: &str) {
    match parse_hex_u64(input) {
        Err(FetchError::MalformedHex { text }) => assert_eq!(text, input),
        other => panic!("expected MalformedHex for {:?}, got {:?}", input, other),
    }
}

#[test]
fn hex_round_trips_with_prefix() {
    for v in [0u64, 1, 15, 16, 255, 0xdead_beef, 1_234_567_890_123, u64::MAX - 1, u64::MAX] {
        assert_eq!(parse_hex_u64(&format!("0x{:x}", v)).unwrap(), v);
    }
}

#[test]
fn hex_round_trips_without_prefix() {
    for v in [0u64, 9, 10, 4096, 0x1234_5678_9abc_def0, u64::MAX] {
        assert_eq!(parse_hex_u64(&format!("{:x}", v)).unwrap(), v);
    }
}

#[test]
fn hex_quantity_round_trips() {
    for v in [0u64, 7, 100, 0xabc, u64::MAX] {
        assert_eq!(parse_hex_u64(&hex_quantity(v)).unwrap(), v);
    }
}

#[test]
fn hex_accepts_upper_case() {
    assert_eq!(parse_hex_u64("0X1F").unwrap(), 31);
    assert_eq!(parse_hex_u64("0xABCdef").unwrap(), 0xabcdef);
}

#[test]
fn hex_accepts_leading_zeros_beyond_sixteen_digits() {
    assert_eq!(parse_hex_u64("0x00000000000000000001").unwrap(), 1);
}

#[test]
fn hex_rejects_empty() {
    assert_malformed("");
    assert_malformed("0x");
    assert_malformed("0X");
}

#[test]
fn hex_rejects_non_hex_characters() {
    assert_malformed("0xg1");
    assert_malformed("+ff");
    assert_malformed("0x-1");
    assert_malformed(" 1");
    assert_malformed("0x1 ");
    assert_malformed("0x0x1");
}

#[test]
fn hex_rejects_values_beyond_64_bits() {
    assert_eq!(parse_hex_u64("0xffffffffffffffff").unwrap(), u64::MAX);
    assert_malformed("0x10000000000000000");
    assert_malformed("1ffffffffffffffff");
}

#[test]
fn hex_quantity_is_lower_case_without_padding() {
    assert_eq!(hex_quantity(0), "0x0");
    assert_eq!(hex_quantity(255), "0xff");
    assert_eq!(hex_quantity(100), "0x64");
    assert_eq!(hex_quantity(u64::MAX), "0xffffffffffffffff");
}

#[test]
fn decimal_text() {
    assert_eq!(decimal_string(0), "0");
    assert_eq!(decimal_string(7), "7");
    assert_eq!(decimal_string(500), "500");
    assert_eq!(decimal_string(u64::MAX), "18446744073709551615");
}
