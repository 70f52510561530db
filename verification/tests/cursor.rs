use base64::{engine::general_purpose, Engine as _};
use chrono::Utc;
use uuid::Uuid;

use synapse_core::utils::cursor::{decode, encode};

#[test]
fn cursor_test_cursor_encode_decode_roundtrip() {
    let created_at = Utc::now().timestamp_micros();
    let id = Uuid::new_v4();
    let cursor = encode(created_at, id).unwrap();
    let (decoded_ts, decoded_id) = decode(&cursor).unwrap();
    assert_eq!(created_at, decoded_ts);
    assert_eq!(id, decoded_id);
}

#[test]
fn test_cursor_decode_invalid_base64() {
    let result = decode("invalid_base64!");
    assert!(result.is_err());
    assert!(result.unwrap_err().contains("base64 decode error"));
}

#[test]
fn test_cursor_decode_malformed_data() {
    // Base64 of "no_separator" -> "bm9fc2VwYXJhdG9y"
    let cursor = "bm9fc2VwYXJhdG9y";
    let result = decode(cursor);
    assert!(result.is_err());
    assert!(result.unwrap_err().contains("missing id in cursor"));
}

#[test]
fn test_cursor_decode_invalid_uuid() {
    let data = "2023-01-01T00:00:00+00:00|invalid-uuid";
    let cursor = general_purpose::STANDARD.encode(data);
    let result = decode(&cursor);
    assert!(result.is_err());
    assert!(result.unwrap_err().contains("uuid parse error"));
}

#[test]
fn test_cursor_decode_invalid_timestamp() {
    let data = "invalid-timestamp|12345678-1234-1234-1234-123456789012";
    let cursor = general_purpose::STANDARD.encode(data);
    let result = decode(&cursor);
    assert!(result.is_err());
    assert!(result.unwrap_err().contains("timestamp parse error"));
}

#[test]
fn cursor_text_is_base64_of_timestamp_and_id() {
    let id = Uuid::from_u128(0x12345678_1234_1234_1234_123456789012);
    let cursor = encode(1_672_531_200_000_000, id).unwrap();
    let text = String::from_utf8(general_purpose::STANDARD.decode(cursor).unwrap()).unwrap();
    assert_eq!(text, "2023-01-01T00:00:00+00:00|12345678-1234-1234-1234-123456789012");
}

#[test]
fn cursor_splits_at_the_first_bar() {
    let data = "2023-01-01T00:00:00+00:00|12345678-1234-1234-1234-123456789012|x";
    let cursor = general_purpose::STANDARD.encode(data);
    assert!(decode(&cursor).unwrap_err().contains("uuid parse error"));
}

#[test]
fn cursor_with_non_utf8_payload_is_refused() {
    let cursor = general_purpose::STANDARD.encode([0xffu8, 0xfe]);
    assert!(decode(&cursor).unwrap_err().starts_with("utf8 error: "));
}

#[test]
fn cursor_for_unrepresentable_instant_is_none() {
    assert!(encode(i64::MAX, Uuid::nil()).is_none());
}
