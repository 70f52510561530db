use synapse_core::stellar::client::{
    account_answer, account_url, breaker_open_error, next_reconnect_count, parse_sse_event, reconnect_backoff_secs,
    take_sse_events, HorizonError,
};
use synapse_core::utils::retry::{
    after_failure, capped_delay, classify_error_kind, decorrelated_jitter_delay_ms, is_transient_by_message,
    is_transient_db_error, is_transient_sqlstate, message_names_transient, DbErrorKind, RetryStep, MAX_DELAY_MS,
};

#[test]
fn test_sqlstate_classification_ignores_misleading_message() {
    assert!(is_transient_sqlstate("40P01"));
    assert!(is_transient_sqlstate("40001"));
    assert!(is_transient_sqlstate("08006"));
    assert!(!is_transient_sqlstate("23505"));
    assert!(!is_transient_sqlstate("42601"));
}

#[test]
fn test_message_fallback_only_used_without_code() {
    assert!(is_transient_by_message("FATAL: could not connect to server"));
    assert!(is_transient_by_message("ERROR: deadlock detected"));
    assert!(!is_transient_by_message("ERROR: unique constraint violated"));
}

#[test]
fn test_is_transient_db_error_pool_timeout() {
    assert!(is_transient_db_error(&DbErrorKind::PoolTimedOut));
}

#[test]
fn test_is_transient_db_error_row_not_found() {
    assert!(!is_transient_db_error(&DbErrorKind::RowNotFound));
}

#[test]
fn test_is_transient_db_error_pool_closed() {
    assert!(!is_transient_db_error(&DbErrorKind::PoolClosed));
}

#[test]
fn code_wins_over_message() {
    let e = DbErrorKind::Database { code: Some("40P01".to_string()), message: "nothing to see".to_string() };
    assert!(is_transient_db_error(&e));
    let e = DbErrorKind::Database { code: Some("23505".to_string()), message: "deadlock detected".to_string() };
    assert!(!is_transient_db_error(&e));
    let e = DbErrorKind::Database { code: None, message: "Deadlock Detected".to_string() };
    assert!(is_transient_db_error(&e));
    assert!(is_transient_db_error(&DbErrorKind::Io));
    assert!(!message_names_transient("Deadlock Detected"));
}

#[test]
fn error_kinds() {
    let db = |c: Option<&str>, m: &str| DbErrorKind::Database { code: c.map(str::to_string), message: m.to_string() };
    assert_eq!(classify_error_kind(&DbErrorKind::Io), "io");
    assert_eq!(classify_error_kind(&DbErrorKind::PoolTimedOut), "pool_timeout");
    assert_eq!(classify_error_kind(&db(Some("40P01"), "")), "deadlock");
    assert_eq!(classify_error_kind(&db(Some("08003"), "")), "connection_reset");
    assert_eq!(classify_error_kind(&db(Some("53300"), "")), "too_many_connections");
    assert_eq!(classify_error_kind(&db(None, "SERIALIZATION failure")), "serialization_failure");
    assert_eq!(classify_error_kind(&db(Some("XX000"), "odd")), "database");
    assert_eq!(classify_error_kind(&DbErrorKind::Other), "other");
}

#[test]
fn test_jitter_distribution_is_spread_not_clustered() {
    let base = 100u64;
    let cap = 10_000u64;
    let mut prev = base;
    let mut delays = std::collections::HashSet::new();
    for _ in 0..500 {
        let d = decorrelated_jitter_delay_ms(prev, base, cap);
        assert!(d >= base.min(cap));
        assert!(d <= cap);
        prev = d;
        delays.insert(d);
    }
    assert!(delays.len() > 250, "expected a wide spread of jitter values, got {} unique values out of 500", delays.len());
}

#[test]
fn test_concurrent_callers_are_decorrelated() {
    let base = 50u64;
    let cap = 10_000u64;
    let mut prev_a = base;
    let mut prev_b = base;
    let mut seq_a = Vec::new();
    let mut seq_b = Vec::new();
    for _ in 0..10 {
        prev_a = decorrelated_jitter_delay_ms(prev_a, base, cap);
        prev_b = decorrelated_jitter_delay_ms(prev_b, base, cap);
        seq_a.push(prev_a);
        seq_b.push(prev_b);
    }
    assert_ne!(seq_a, seq_b, "two independent callers produced identical jitter sequences");
}

#[test]
fn retry_steps_and_cap() {
    assert_eq!(after_failure(0, 3, true), RetryStep::Retry { attempt: 1 });
    assert_eq!(after_failure(3, 3, true), RetryStep::GiveUp);
    assert_eq!(after_failure(0, 3, false), RetryStep::GiveUp);
    assert_eq!(capped_delay(20_000, MAX_DELAY_MS), MAX_DELAY_MS);
    assert_eq!(capped_delay(7, MAX_DELAY_MS), 7);
    assert_eq!(decorrelated_jitter_delay_ms(u64::MAX, 5, 5), 5);
}

#[test]
fn test_parse_sse_event_heartbeat_returns_empty() {
    assert_eq!(parse_sse_event(": heartbeat"), "");
    assert_eq!(parse_sse_event(""), "");
}

#[test]
fn test_parse_sse_event_complete_single_line() {
    let raw = r#"data: {"id":"p1","from":"G1","to":"G2","amount":"10","asset_code":"USD","memo":null,"memo_type":null,"created_at":"2024-01-01"}"#;
    let data = parse_sse_event(raw);
    assert!(!data.is_empty());
    let payment: serde_json::Value = serde_json::from_str(&data).unwrap();
    assert_eq!(payment["id"], "p1");
}

#[test]
fn sse_multiline_data_and_crlf() {
    assert_eq!(parse_sse_event("event: x\r\ndata: ab\r\ndata:   cd\r\nid: 7"), "ab  cd");
    assert_eq!(parse_sse_event("data:\t cd\ndata: e"), "cde");
    assert_eq!(parse_sse_event("data:x\n\n"), "x");
    assert_eq!(parse_sse_event("data: y\r"), "y\r");
}

#[test]
fn test_backoff_never_overflows_past_64_reconnects() {
    for count in 0u32..=100 {
        let backoff = reconnect_backoff_secs(count);
        assert!(backoff <= 30, "backoff exceeded 30 s at count={count}");
    }
}

#[test]
fn backoff_doubles_then_caps() {
    let v: Vec<u64> = (0u32..7).map(reconnect_backoff_secs).collect();
    assert_eq!(v, vec![1, 2, 4, 8, 16, 30, 30]);
    assert_eq!(next_reconnect_count(4, 3), 0);
    assert_eq!(next_reconnect_count(4, 0), 5);
    assert_eq!(next_reconnect_count(u32::MAX, 0), u32::MAX);
}

#[test]
fn account_url_joins_base_and_address() {
    assert_eq!(account_url("https://horizon.example/", "GABC"), "https://horizon.example/accounts/GABC");
    assert_eq!(account_url("https://horizon.example", "GABC"), "https://horizon.example/accounts/GABC");
}

#[test]
fn account_answers_are_classified() {
    assert_eq!(account_answer(200, "200 OK", "GABC"), Ok(()));
    assert_eq!(account_answer(404, "404 Not Found", "GABC"), Err(HorizonError::AccountNotFound("GABC".to_string())));
    let e = account_answer(500, "500 Internal Server Error", "GABC").unwrap_err();
    assert_eq!(e, HorizonError::InvalidResponse("Horizon API error: 500 Internal Server Error".to_string()));
    assert_eq!(e.to_string(), "Invalid response from Horizon: Horizon API error: 500 Internal Server Error");
    assert_eq!(breaker_open_error().to_string(), "Circuit breaker open: Horizon API circuit breaker is open");
}

#[test]
fn test_sse_buffer_reassembles_chunk_split_event() {
    let payment_json = r#"{"id":"split-1","from":"GA","to":"GB","amount":"5","asset_code":"EUR","memo":null,"memo_type":null,"created_at":"2024-06-01"}"#;

    // Split the SSE event across two chunks at an arbitrary byte boundary.
    let full_event = format!("data: {}\n\n", payment_json);
    let split_at = full_event.len() / 2;
    let chunk1 = &full_event[..split_at];
    let chunk2 = &full_event[split_at..];

    let mut buf = String::new();
    let mut parsed: Vec<serde_json::Value> = Vec::new();

    // Simulate chunk1 arriving: no complete event yet.
    buf.push_str(chunk1);
    for raw in take_sse_events(&mut buf) {
        let data = parse_sse_event(&raw);
        if !data.is_empty() {
            parsed.push(serde_json::from_str(&data).unwrap());
        }
    }
    assert!(parsed.is_empty(), "no complete event after chunk1 alone");

    // Simulate chunk2 completing the event.
    buf.push_str(chunk2);
    for raw in take_sse_events(&mut buf) {
        let data = parse_sse_event(&raw);
        if !data.is_empty() {
            parsed.push(serde_json::from_str(&data).unwrap());
        }
    }

    assert_eq!(parsed.len(), 1, "exactly one event after both chunks");
    assert_eq!(parsed[0]["id"], "split-1");
}

#[test]
fn sse_events_split_at_the_first_blank_line() {
    let mut buf = "a\n\n\nb\n\nc".to_string();
    assert_eq!(take_sse_events(&mut buf), vec!["a".to_string(), "\nb".to_string()]);
    assert_eq!(buf, "c");
    let mut buf = "\n\n\n\n".to_string();
    assert_eq!(take_sse_events(&mut buf), vec![String::new(), String::new()]);
    assert_eq!(buf, "");
}
