use chrono::{DateTime, SecondsFormat, TimeZone, Utc};

use synapse_core::ws::pagination::{
    cursor_payload, encode_cursor_payload, EventPage, PaginationError, PaginationRequest, DEFAULT_PAGE_SIZE,
    MAX_CURSOR_BYTES, MAX_PAGE_SIZE,
};

fn fixed_ts() -> DateTime<Utc> {
    Utc.with_ymd_and_hms(2024, 6, 1, 12, 0, 0).unwrap()
}

/// The JSON payload of a cursor, as the server writes it.
fn cursor_json(last_id: &str, ts: DateTime<Utc>) -> Vec<u8> {
    let mut m = serde_json::Map::new();
    m.insert("last_id".to_string(), serde_json::Value::String(last_id.to_string()));
    m.insert(
        "ts".to_string(),
        serde_json::Value::String(ts.to_rfc3339_opts(SecondsFormat::AutoSi, true)),
    );
    serde_json::to_vec(&serde_json::Value::Object(m)).unwrap()
}

fn make_cursor(id: &str) -> String {
    encode_cursor_payload(&cursor_json(id, fixed_ts()))
}

/// Reads cursor text back into its id and timestamp.
fn decode(raw: &str) -> Result<(String, DateTime<Utc>), PaginationError> {
    let bytes = cursor_payload(raw)?;
    let v: serde_json::Value =
        serde_json::from_slice(&bytes).map_err(|e| PaginationError::CursorMalformed(e.to_string()))?;
    let id = v.get("last_id").and_then(|x| x.as_str());
    let ts = v.get("ts").and_then(|x| x.as_str()).and_then(|s| s.parse::<DateTime<Utc>>().ok());
    match (id, ts) {
        (Some(id), Some(ts)) => Ok((id.to_string(), ts)),
        _ => Err(PaginationError::CursorMalformed("missing field".to_string())),
    }
}

// --- Cursor encode / decode ---

#[test]
fn pagination_test_cursor_encode_decode_roundtrip() {
    let encoded = make_cursor("evt-abc-123");
    let (id, ts) = decode(&encoded).unwrap();
    assert_eq!(id, "evt-abc-123");
    assert_eq!(ts, fixed_ts());
}

#[test]
fn test_cursor_decode_too_long() {
    let long = "a".repeat(MAX_CURSOR_BYTES + 1);
    assert_eq!(decode(&long), Err(PaginationError::CursorTooLong));
}

#[test]
fn test_cursor_decode_invalid_characters() {
    // '+' and '/' are standard base64 but not base64url
    assert_eq!(decode("abc+def/"), Err(PaginationError::CursorInvalidEncoding));
}

#[test]
fn test_cursor_decode_valid_base64url_but_bad_json() {
    let garbage = encode_cursor_payload(b"not-json!!!");
    assert!(matches!(decode(&garbage), Err(PaginationError::CursorMalformed(_))));
}

// --- PaginationRequest ---

#[test]
fn test_parse_defaults() {
    let req = PaginationRequest { page_size: DEFAULT_PAGE_SIZE, cursor: None };
    let params = req.check().unwrap();
    assert_eq!(params.page_size, DEFAULT_PAGE_SIZE);
    assert!(params.cursor_payload.is_none());
}

#[test]
fn test_parse_page_size_zero_is_error() {
    let req = PaginationRequest { page_size: 0, cursor: None };
    assert_eq!(req.check(), Err(PaginationError::InvalidPageSize(0)));
}

#[test]
fn test_parse_page_size_too_large_is_error() {
    let req = PaginationRequest { page_size: MAX_PAGE_SIZE + 1, cursor: None };
    assert_eq!(req.check(), Err(PaginationError::InvalidPageSize(MAX_PAGE_SIZE + 1)));
}

#[test]
fn test_parse_max_page_size_accepted() {
    let req = PaginationRequest { page_size: MAX_PAGE_SIZE, cursor: None };
    assert!(req.check().is_ok());
}

#[test]
fn test_parse_page_size_one_accepted() {
    let req = PaginationRequest { page_size: 1, cursor: None };
    let params = req.check().unwrap();
    assert_eq!(params.page_size, 1);
}

#[test]
fn test_parse_with_valid_cursor() {
    let cursor_str = make_cursor("evt-999");
    let req = PaginationRequest { page_size: 10, cursor: Some(cursor_str) };
    let params = req.check().unwrap();
    let payload = params.cursor_payload.unwrap();
    let v: serde_json::Value = serde_json::from_slice(&payload).unwrap();
    assert_eq!(v.get("last_id").and_then(|x| x.as_str()), Some("evt-999"));
}

#[test]
fn test_parse_with_empty_cursor_string_treated_as_none() {
    let req = PaginationRequest { page_size: 10, cursor: Some(String::new()) };
    let params = req.check().unwrap();
    assert!(params.cursor_payload.is_none());
}

#[test]
fn test_parse_with_invalid_cursor_propagates_error() {
    let req = PaginationRequest { page_size: 10, cursor: Some("not+valid/base64url".to_string()) };
    assert_eq!(req.check(), Err(PaginationError::CursorInvalidEncoding));
}

// --- EventPage ---

#[derive(Debug, PartialEq)]
struct Event {
    id: String,
    ts: DateTime<Utc>,
    payload: u32,
}

fn cursor_for(e: &Event) -> String {
    encode_cursor_payload(&cursor_json(&e.id, e.ts))
}

fn make_events(n: usize) -> Vec<Event> {
    (0..n)
        .map(|i| Event {
            id: format!("evt-{i}"),
            ts: fixed_ts() + chrono::Duration::seconds(i as i64),
            payload: i as u32,
        })
        .collect()
}

#[test]
fn test_event_page_first_page_no_more() {
    let events = make_events(5);
    let page = EventPage::from_lookahead(events, 5, cursor_for);
    assert_eq!(page.events.len(), 5);
    assert!(!page.has_more);
    assert!(page.next_cursor.is_none());
}

#[test]
fn test_event_page_has_more_and_cursor() {
    let events = make_events(4);
    let page = EventPage::from_lookahead(events, 3, cursor_for);
    assert_eq!(page.events.len(), 3);
    assert!(page.has_more);
    assert!(page.next_cursor.is_some());
    let cursor_str = page.next_cursor.unwrap();
    let (id, _) = decode(&cursor_str).unwrap();
    assert_eq!(id, "evt-2");
}

#[test]
fn test_event_page_empty_events() {
    let page: EventPage<Event> = EventPage::from_lookahead(vec![], 10, cursor_for);
    assert!(page.events.is_empty());
    assert!(!page.has_more);
    assert!(page.next_cursor.is_none());
}

#[test]
fn test_event_page_single_event_no_more() {
    let events = make_events(1);
    let page = EventPage::from_lookahead(events, 10, cursor_for);
    assert_eq!(page.events.len(), 1);
    assert!(!page.has_more);
    assert!(page.next_cursor.is_none());
}

#[test]
fn test_event_page_exact_lookahead_boundary() {
    let events = make_events(10);
    let page = EventPage::from_lookahead(events, 10, cursor_for);
    assert_eq!(page.events.len(), 10);
    assert!(!page.has_more);
}

#[test]
fn test_event_page_page_size_stored() {
    let events = make_events(3);
    let page = EventPage::from_lookahead(events, 20, cursor_for);
    assert_eq!(page.page_size, 20);
}

// --- Security edge cases ---

#[test]
fn test_cursor_decode_at_exact_length_limit() {
    let at_limit = "a".repeat(MAX_CURSOR_BYTES);
    let result = decode(&at_limit);
    assert_ne!(result, Err(PaginationError::CursorTooLong));
}

#[test]
fn test_cursor_decode_one_over_limit_is_too_long() {
    let over = "a".repeat(MAX_CURSOR_BYTES + 1);
    assert_eq!(decode(&over), Err(PaginationError::CursorTooLong));
}

#[test]
fn test_no_sql_injection_via_cursor_last_id() {
    let c = encode_cursor_payload(&cursor_json("'; DROP TABLE events; --", fixed_ts()));
    let (id, _) = decode(&c).unwrap();
    assert_eq!(id, "'; DROP TABLE events; --");
}

#[test]
fn test_page_size_boundary_values() {
    for size in [1u32, MAX_PAGE_SIZE / 2, MAX_PAGE_SIZE] {
        let req = PaginationRequest { page_size: size, cursor: None };
        assert!(req.check().is_ok(), "page_size={size} should be valid");
    }
    for size in [0u32, MAX_PAGE_SIZE + 1, u32::MAX] {
        let req = PaginationRequest { page_size: size, cursor: None };
        assert!(req.check().is_err(), "page_size={size} should be rejected");
    }
}

// --- Further cases ---

#[test]
fn pagination_error_messages() {
    assert_eq!(PaginationError::InvalidPageSize(0).to_string(), "page_size must be between 1 and 100, got 0");
    assert_eq!(PaginationError::CursorTooLong.to_string(), "cursor exceeds maximum length of 512 bytes");
    assert_eq!(PaginationError::CursorInvalidEncoding.to_string(), "cursor contains invalid characters");
    assert_eq!(
        PaginationError::CursorMalformed("x".to_string()).to_string(),
        "cursor payload is malformed: x"
    );
}

#[test]
fn cursor_text_is_unpadded_base64url() {
    assert_eq!(encode_cursor_payload(b"\xfb\xff"), "-_8");
    assert_eq!(cursor_payload("-_8"), Ok(vec![0xfb, 0xff]));
}

#[test]
fn multibyte_cursor_text_is_invalid() {
    assert_eq!(cursor_payload("abcé"), Err(PaginationError::CursorInvalidEncoding));
}

#[test]
fn zero_page_size_lookahead_has_no_cursor() {
    let page = EventPage::from_lookahead(make_events(2), 0, cursor_for);
    assert!(page.has_more);
    assert!(page.events.is_empty());
    assert!(page.next_cursor.is_none());
}
