use flare_core::utils::{
    bytes_to_hex, constant_time_eq, decimal_string, format_id, format_short_id, hex_to_bytes,
    is_valid_connection_id, is_valid_user_id, simple_hash, truncate_string,
};
use flare_core::error::ErrorCode;

#[test]
fn test_is_valid_connection_id() {
    assert!(is_valid_connection_id("conn-123"));
    assert!(is_valid_connection_id("conn_456"));
    assert!(!is_valid_connection_id("conn 123"));
    assert!(!is_valid_connection_id(""));
}

#[test]
fn test_is_valid_user_id() {
    assert!(is_valid_user_id("user-123"));
    assert!(is_valid_user_id("user@example.com"));
    assert!(!is_valid_user_id("user 123"));
    assert!(!is_valid_user_id(""));
}

#[test]
fn test_truncate_string() {
    assert_eq!(truncate_string("hello", 10), "hello");
    assert_eq!(truncate_string("hello world", 5), "he...");
}

#[test]
fn test_bytes_to_hex() {
    assert_eq!(bytes_to_hex(&[0x12, 0x34, 0xAB]), "1234ab");
}

#[test]
fn test_hex_to_bytes() {
    assert_eq!(hex_to_bytes("1234ab").unwrap(), vec![0x12, 0x34, 0xAB]);
    assert!(hex_to_bytes("invalid").is_err());
}

#[test]
fn test_constant_time_eq() {
    assert!(constant_time_eq(b"hello", b"hello"));
    assert!(!constant_time_eq(b"hello", b"world"));
    assert!(!constant_time_eq(b"hello", b"hell"));
}

#[test]
fn connection_id_length_limit_is_128_bytes() {
    let ok = "a".repeat(128);
    let too_long = "a".repeat(129);
    assert!(is_valid_connection_id(&ok));
    assert!(!is_valid_connection_id(&too_long));
}

#[test]
fn user_id_length_limit_is_64_bytes_and_allows_dots() {
    assert!(is_valid_user_id(&"b".repeat(64)));
    assert!(!is_valid_user_id(&"b".repeat(65)));
    assert!(is_valid_user_id("first.last"));
    assert!(!is_valid_connection_id("first.last"));
}

#[test]
fn truncate_keeps_exact_length_and_handles_tiny_limits() {
    assert_eq!(truncate_string("hello", 5), "hello");
    assert_eq!(truncate_string("hello", 2), "..");
    assert_eq!(truncate_string("hello", 1), ".");
    assert_eq!(truncate_string("hello", 0), "");
    assert_eq!(truncate_string("hello", 3), "...");
    assert_eq!(truncate_string("abcdef", 4), "a...");
}

#[test]
fn hex_round_trip_on_concrete_bytes() {
    let bytes = vec![0x00u8, 0x0f, 0x10, 0xff, 0x7a];
    let hex = bytes_to_hex(&bytes);
    assert_eq!(hex, "000f10ff7a");
    assert_eq!(hex_to_bytes(&hex).unwrap(), bytes);
}

#[test]
fn hex_decoding_accepts_uppercase_and_rejects_bad_digits() {
    assert_eq!(hex_to_bytes("ABcd").unwrap(), vec![0xab, 0xcd]);
    assert_eq!(hex_to_bytes("").unwrap(), Vec::<u8>::new());
    let err = hex_to_bytes("zz").unwrap_err();
    assert_eq!(err.code, ErrorCode::ProtocolError);
}

#[test]
fn hex_decoding_rejects_signs_and_odd_lengths() {
    assert_eq!(hex_to_bytes("+a").unwrap_err().code, ErrorCode::ProtocolError);
    assert_eq!(hex_to_bytes("-1").unwrap_err().code, ErrorCode::ProtocolError);
    assert_eq!(hex_to_bytes("abc").unwrap_err().code, ErrorCode::ProtocolError);
    assert_eq!(hex_to_bytes("a").unwrap_err().code, ErrorCode::ProtocolError);
    assert_eq!(hex_to_bytes("\u{e9}1").unwrap_err().code, ErrorCode::ProtocolError);
}

#[test]
fn hex_decode_then_encode_gives_lowercase_text() {
    assert_eq!(bytes_to_hex(&hex_to_bytes("ABcd09Ef").unwrap()), "abcd09ef");
    assert_eq!(bytes_to_hex(&hex_to_bytes("1234ab").unwrap()), "1234ab");
}

#[test]
fn fnv1a_hash_matches_known_values() {
    assert_eq!(simple_hash(b""), 0xcbf29ce484222325);
    assert_eq!(simple_hash(b"a"), 0xaf63dc4c8601ec8c);
    assert_eq!(simple_hash(b"foobar"), 0x85944171f73967e8);
}

#[test]
fn identifiers_are_formatted_with_fixed_width_hex() {
    assert_eq!(format_id(1700000000000, 255), "1700000000000-00000000000000ff");
    assert_eq!(format_short_id(26), "0000001a");
    assert_eq!(decimal_string(0), "0");
    assert_eq!(decimal_string(9876543210), "9876543210");
}
