use std::collections::HashMap;
use std::time::Duration;

use synapse_core::telemetry::connection_pool::{ConnectionPool, PoolConfig};
use synapse_core::telemetry::data_export::{
    check_record, ExportBatch, ExportBuffer, ExportConfig, DEFAULT_BATCH_SIZE, MAX_BUFFER_SIZE, MAX_PAYLOAD_SIZE,
};
use synapse_core::telemetry::error_handling::{ErrorAction, ErrorHandler, TelemetryError};
use synapse_core::telemetry::graceful_shutdown::{
    ShutdownConfig, ShutdownCoordinator, ShutdownError, ShutdownPhase, MAX_DRAIN_TIMEOUT_SECS,
    MAX_FLUSH_TIMEOUT_SECS, MAX_PENDING_SPANS,
};
use synapse_core::telemetry::flush::{flush_timeout_from, parse_u64, DEFAULT_FLUSH_TIMEOUT_SECS};
use synapse_core::telemetry::metrics_optimization::CardinalityLimiter;
use synapse_core::telemetry::input_validation::{InputValidator, ValidationError, MAX_ATTRIBUTES, MAX_STRING_LENGTH};

// -- connection pool --

#[test]
fn test_acquire_creates_connection() {
    let mut pool = ConnectionPool::new().unwrap();
    let conn = pool.acquire().unwrap();
    assert_eq!(conn.id, 1);
    assert_eq!(pool.total_count(), 1);
}

#[test]
fn test_release_returns_connection_to_pool() {
    let mut pool = ConnectionPool::new().unwrap();
    let conn = pool.acquire().unwrap();
    pool.release(conn);
    assert_eq!(pool.idle_count(), 1);
}

#[test]
fn test_acquire_reuses_idle_connection() {
    let mut pool = ConnectionPool::new().unwrap();
    let conn = pool.acquire().unwrap();
    let id = conn.id;
    pool.release(conn);
    let conn2 = pool.acquire().unwrap();
    assert_eq!(conn2.id, id);
    assert_eq!(pool.total_count(), 1);
}

#[test]
fn test_exhausted_error_at_capacity() {
    let config = PoolConfig { max_size: 2, ..Default::default() };
    let mut pool = ConnectionPool::with_config(config).unwrap();
    let _c1 = pool.acquire().unwrap();
    let _c2 = pool.acquire().unwrap();
    assert!(matches!(pool.acquire(), Err(TelemetryError::PoolExhausted(2))));
}

#[test]
fn test_invalid_endpoint_scheme_rejected() {
    let config = PoolConfig { endpoint: "ftp://exporter:4317".to_string(), ..Default::default() };
    assert!(ConnectionPool::with_config(config).is_err());
}

#[test]
fn test_zero_max_size_rejected() {
    let config = PoolConfig { max_size: 0, ..Default::default() };
    assert!(ConnectionPool::with_config(config).is_err());
}

#[test]
fn test_https_endpoint_accepted() {
    let config = PoolConfig { endpoint: "https://otel-collector.internal:4317".to_string(), ..Default::default() };
    assert!(ConnectionPool::with_config(config).is_ok());
}

#[test]
fn stale_idle_connection_replaced_at_later_reading() {
    let config = PoolConfig { max_idle: Duration::from_nanos(1), ..Default::default() };
    let mut pool = ConnectionPool::with_config(config).unwrap();
    let conn = pool.acquire_at(0).unwrap();
    pool.release_at(conn, 0);
    let conn2 = pool.acquire_at(10).unwrap();
    assert_eq!(conn2.id, 2);
    assert_eq!(pool.idle_count(), 0);
}

// -- error handling --

#[test]
fn test_error_handler_default() {
    let handler = ErrorHandler::new();
    assert_eq!(handler.error_count(), 0);
    assert!(!handler.threshold_exceeded());
}

#[test]
fn test_error_handler_fail_fast() {
    let mut handler = ErrorHandler::fail_fast();
    let error = TelemetryError::ExportError("test".to_string());
    let action = handler.handle_error(&error);
    assert_eq!(action, ErrorAction::Stop);
}

#[test]
fn test_error_handler_threshold() {
    let mut handler = ErrorHandler::with_threshold(3);
    let error = TelemetryError::ExportError("test".to_string());
    assert_eq!(handler.handle_error(&error), ErrorAction::Continue);
    assert_eq!(handler.handle_error(&error), ErrorAction::Continue);
    assert_eq!(handler.handle_error(&error), ErrorAction::Stop);
    assert!(handler.threshold_exceeded());
}

#[test]
fn test_error_handler_reset() {
    let mut handler = ErrorHandler::with_threshold(5);
    let error = TelemetryError::ExportError("test".to_string());
    handler.handle_error(&error);
    handler.handle_error(&error);
    assert_eq!(handler.error_count(), 2);
    handler.reset();
    assert_eq!(handler.error_count(), 0);
    assert!(!handler.threshold_exceeded());
}

#[test]
fn test_circuit_breaker_error_always_stops() {
    let mut handler = ErrorHandler::new();
    let error = TelemetryError::CircuitBreakerOpen;
    let action = handler.handle_error(&error);
    assert_eq!(action, ErrorAction::Stop);
}

#[test]
fn test_validation_error_fails_fast() {
    let mut handler = ErrorHandler::new();
    let validation_error = ValidationError::EmptyValue("test".to_string());
    let error = TelemetryError::ValidationError(validation_error);
    let action = handler.handle_error(&error);
    assert_eq!(action, ErrorAction::FailFast);
}

#[test]
fn test_error_types() {
    let init_err = TelemetryError::InitializationError("init failed".to_string());
    assert!(init_err.to_string().contains("initialize tracer"));
    let export_err = TelemetryError::ExporterConfigError("config failed".to_string());
    assert!(export_err.to_string().contains("configure OTLP"));
    let conn_err = TelemetryError::ConnectionError("connection failed".to_string());
    assert!(conn_err.to_string().contains("Connection error"));
}

#[test]
fn test_timeout_error() {
    let timeout = Duration::from_secs(30);
    let error = TelemetryError::Timeout(timeout);
    assert!(error.to_string().contains("timed out"));
}

#[test]
fn error_messages_exact() {
    assert_eq!(TelemetryError::PoolExhausted(4).to_string(), "Connection pool exhausted: all 4 connections in use");
    assert_eq!(TelemetryError::Timeout(Duration::from_secs(30)).to_string(), "Operation timed out after 30s");
    assert_eq!(TelemetryError::PayloadTooLarge(65536).to_string(), "Payload exceeds maximum size of 65536 bytes");
}

#[test]
fn error_below_threshold_continues_and_counts() {
    let mut handler = ErrorHandler::with_threshold(2);
    assert_eq!(handler.handle_error(&TelemetryError::BufferOverflow), ErrorAction::Continue);
    assert_eq!(handler.error_count(), 1);
    assert!(!handler.threshold_exceeded());
}

// -- graceful shutdown --

#[test]
fn default_config_is_valid() {
    assert!(ShutdownConfig::default().validate().is_ok());
}

#[test]
fn zero_flush_timeout_rejected() {
    let cfg = ShutdownConfig { flush_timeout: Duration::ZERO, ..Default::default() };
    assert!(cfg.validate().is_err());
}

#[test]
fn zero_drain_timeout_rejected() {
    let cfg = ShutdownConfig { drain_timeout: Duration::ZERO, ..Default::default() };
    assert!(cfg.validate().is_err());
}

#[test]
fn flush_timeout_exceeding_max_rejected() {
    let cfg = ShutdownConfig {
        flush_timeout: Duration::from_secs(MAX_FLUSH_TIMEOUT_SECS) + Duration::from_secs(1),
        drain_timeout: Duration::from_secs(MAX_DRAIN_TIMEOUT_SECS),
        ..Default::default()
    };
    assert!(cfg.validate().is_err());
}

#[test]
fn drain_timeout_exceeding_max_rejected() {
    let cfg = ShutdownConfig {
        flush_timeout: Duration::from_secs(5),
        drain_timeout: Duration::from_secs(MAX_DRAIN_TIMEOUT_SECS) + Duration::from_secs(1),
        ..Default::default()
    };
    assert!(cfg.validate().is_err());
}

#[test]
fn drain_timeout_shorter_than_flush_rejected() {
    let cfg = ShutdownConfig {
        flush_timeout: Duration::from_secs(10),
        drain_timeout: Duration::from_secs(5),
        ..Default::default()
    };
    assert!(cfg.validate().is_err());
}

#[test]
fn equal_flush_and_drain_timeouts_accepted() {
    let cfg = ShutdownConfig {
        flush_timeout: Duration::from_secs(5),
        drain_timeout: Duration::from_secs(5),
        ..Default::default()
    };
    assert!(cfg.validate().is_ok());
}

fn make_coordinator() -> ShutdownCoordinator {
    ShutdownCoordinator::with_defaults().unwrap()
}

#[test]
fn new_coordinator_is_running() {
    let c = make_coordinator();
    assert_eq!(c.phase(), ShutdownPhase::Running);
    assert!(c.is_running());
    assert!(!c.is_completed());
}

#[test]
fn full_lifecycle_succeeds() {
    let mut c = make_coordinator();
    c.initiate().unwrap();
    assert_eq!(c.phase(), ShutdownPhase::Draining);
    let flushed = c.flush_pending(42).unwrap();
    assert_eq!(flushed, 42);
    assert_eq!(c.phase(), ShutdownPhase::Flushing);
    c.begin_stop().unwrap();
    assert_eq!(c.phase(), ShutdownPhase::Stopping);
    let metrics = c.complete().unwrap();
    assert_eq!(c.phase(), ShutdownPhase::Completed);
    assert!(c.is_completed());
    assert_eq!(metrics.spans_flushed, 42);
    assert_eq!(metrics.spans_dropped, 0);
    assert!(metrics.total_duration.is_some());
    assert!(metrics.completed_within_timeout);
}

#[test]
fn initiate_twice_returns_invalid_phase() {
    let mut c = make_coordinator();
    c.initiate().unwrap();
    let err = c.initiate().unwrap_err();
    assert!(matches!(err, ShutdownError::InvalidPhase { .. }));
}

#[test]
fn complete_twice_returns_already_completed() {
    let mut c = make_coordinator();
    c.initiate().unwrap();
    c.flush_pending(0).unwrap();
    c.begin_stop().unwrap();
    c.complete().unwrap();
    let err = c.complete().unwrap_err();
    assert!(matches!(err, ShutdownError::AlreadyCompleted));
}

#[test]
fn initiate_after_complete_returns_already_completed() {
    let mut c = make_coordinator();
    c.initiate().unwrap();
    c.flush_pending(0).unwrap();
    c.begin_stop().unwrap();
    c.complete().unwrap();
    let err = c.initiate().unwrap_err();
    assert!(matches!(err, ShutdownError::AlreadyCompleted));
}

#[test]
fn flush_before_initiate_returns_invalid_phase() {
    let mut c = make_coordinator();
    let err = c.flush_pending(10).unwrap_err();
    assert!(matches!(err, ShutdownError::InvalidPhase { .. }));
}

#[test]
fn begin_stop_before_flush_returns_invalid_phase() {
    let mut c = make_coordinator();
    c.initiate().unwrap();
    let err = c.begin_stop().unwrap_err();
    assert!(matches!(err, ShutdownError::InvalidPhase { .. }));
}

#[test]
fn complete_before_stop_returns_invalid_phase() {
    let mut c = make_coordinator();
    c.initiate().unwrap();
    c.flush_pending(0).unwrap();
    let err = c.complete().unwrap_err();
    assert!(matches!(err, ShutdownError::InvalidPhase { .. }));
}

#[test]
fn too_many_pending_spans_rejected() {
    let mut c = make_coordinator();
    c.initiate().unwrap();
    let err = c.flush_pending(MAX_PENDING_SPANS + 1).unwrap_err();
    assert!(matches!(err, ShutdownError::TooManyPendingSpans(_)));
}

#[test]
fn exactly_max_pending_spans_accepted() {
    let mut c = make_coordinator();
    c.initiate().unwrap();
    assert!(c.flush_pending(MAX_PENDING_SPANS).is_ok());
}

#[test]
fn zero_pending_spans_accepted() {
    let mut c = make_coordinator();
    c.initiate().unwrap();
    let flushed = c.flush_pending(0).unwrap();
    assert_eq!(flushed, 0);
}

#[test]
fn drain_timeout_drops_spans_at_expired_reading_when_forced() {
    let cfg = ShutdownConfig {
        flush_timeout: Duration::from_millis(1),
        drain_timeout: Duration::from_millis(1),
        force_on_timeout: true,
    };
    let mut c = ShutdownCoordinator::new(cfg).unwrap();
    c.initiate_at(1_000).unwrap();
    let flushed = c.flush_pending_at(50, 1_000 + 5_000_000).unwrap();
    assert_eq!(flushed, 0);
    assert_eq!(c.metrics().spans_dropped, 50);
}

#[test]
fn drain_timeout_errors_at_expired_reading_when_not_forced() {
    let cfg = ShutdownConfig {
        flush_timeout: Duration::from_millis(1),
        drain_timeout: Duration::from_millis(1),
        force_on_timeout: false,
    };
    let mut c = ShutdownCoordinator::new(cfg).unwrap();
    c.initiate_at(0).unwrap();
    let err = c.flush_pending_at(10, 5_000_000).unwrap_err();
    assert!(matches!(err, ShutdownError::DrainTimeout(_)));
}

#[test]
fn drain_window_not_expired_before_initiate() {
    let c = make_coordinator();
    assert!(!c.drain_window_expired());
}

#[test]
fn drain_window_not_expired_immediately_after_initiate() {
    let mut c = make_coordinator();
    c.initiate().unwrap();
    assert!(!c.drain_window_expired());
}

#[test]
fn drain_window_expires_at_reading_past_timeout() {
    let cfg = ShutdownConfig {
        flush_timeout: Duration::from_millis(1),
        drain_timeout: Duration::from_millis(1),
        force_on_timeout: true,
    };
    let mut c = ShutdownCoordinator::new(cfg).unwrap();
    c.initiate_at(0).unwrap();
    assert!(!c.drain_window_expired_at(999_999));
    assert!(c.drain_window_expired_at(1_000_000));
}

#[test]
fn metrics_reflect_flushed_and_dropped_counts() {
    let mut c = make_coordinator();
    c.initiate().unwrap();
    c.flush_pending(7).unwrap();
    c.begin_stop().unwrap();
    c.complete().unwrap();
    let m = c.metrics();
    assert_eq!(m.spans_flushed, 7);
    assert_eq!(m.spans_dropped, 0);
    assert!(m.total_duration.is_some());
}

#[test]
fn phase_display_values() {
    assert_eq!(ShutdownPhase::Running.to_string(), "running");
    assert_eq!(ShutdownPhase::Draining.to_string(), "draining");
    assert_eq!(ShutdownPhase::Flushing.to_string(), "flushing");
    assert_eq!(ShutdownPhase::Stopping.to_string(), "stopping");
    assert_eq!(ShutdownPhase::Completed.to_string(), "completed");
}

#[test]
fn coordinator_new_rejects_invalid_config() {
    let cfg = ShutdownConfig { flush_timeout: Duration::ZERO, ..Default::default() };
    assert!(ShutdownCoordinator::new(cfg).is_err());
}

#[test]
fn shutdown_error_messages() {
    let e = ShutdownError::InvalidPhase { expected: ShutdownPhase::Draining, current: ShutdownPhase::Running };
    assert_eq!(e.to_string(), "Invalid phase transition: expected draining, current running");
    assert_eq!(
        ShutdownError::TooManyPendingSpans(10_001).to_string(),
        "Too many pending spans: 10001 exceeds maximum of 10000"
    );
}

// -- input validation --

#[test]
fn test_validate_span_name_valid() {
    assert!(InputValidator::validate_span_name("http.request").is_ok());
    assert!(InputValidator::validate_span_name("db_query").is_ok());
    assert!(InputValidator::validate_span_name("cache-hit").is_ok());
}

#[test]
fn test_validate_span_name_empty() {
    assert!(InputValidator::validate_span_name("").is_err());
}

#[test]
fn test_validate_span_name_too_long() {
    let long_name = "a".repeat(MAX_STRING_LENGTH + 1);
    assert!(InputValidator::validate_span_name(&long_name).is_err());
}

#[test]
fn test_validate_span_name_invalid_chars() {
    assert!(InputValidator::validate_span_name("span@name").is_err());
    assert!(InputValidator::validate_span_name("span name").is_err());
}

#[test]
fn test_validate_attribute_value_valid() {
    assert!(InputValidator::validate_attribute_value("valid_value").is_ok());
    assert!(InputValidator::validate_attribute_value("123").is_ok());
}

#[test]
fn test_validate_attribute_value_null_byte() {
    assert!(InputValidator::validate_attribute_value("value\0null").is_err());
}

#[test]
fn test_validate_attributes_valid() {
    let mut attrs = HashMap::new();
    attrs.insert("key1".to_string(), "value1".to_string());
    attrs.insert("key2".to_string(), "value2".to_string());
    assert!(InputValidator::validate_attributes(&attrs).is_ok());
}

#[test]
fn test_validate_attributes_too_many() {
    let mut attrs = HashMap::new();
    for i in 0..=MAX_ATTRIBUTES {
        attrs.insert(format!("key{}", i), format!("value{}", i));
    }
    assert!(InputValidator::validate_attributes(&attrs).is_err());
}

#[test]
fn test_validate_endpoint_valid() {
    assert!(InputValidator::validate_endpoint("https://localhost:4317").is_ok());
    assert!(InputValidator::validate_endpoint("http://example.com").is_ok());
}

#[test]
fn test_validate_endpoint_invalid_scheme() {
    assert!(InputValidator::validate_endpoint("ftp://example.com").is_err());
    assert!(InputValidator::validate_endpoint("localhost:4317").is_err());
}

#[test]
fn test_validate_endpoint_empty() {
    assert!(InputValidator::validate_endpoint("").is_err());
}

#[test]
fn validation_error_messages() {
    let e = InputValidator::validate_span_name("").unwrap_err();
    assert_eq!(e.to_string(), "Empty value: span name cannot be empty");
    let e = InputValidator::validate_attribute_value("a\0").unwrap_err();
    assert_eq!(e.to_string(), "Invalid format: attribute value contains null bytes");
}

// -- data export --

#[test]
fn test_export_config_default() {
    let config = ExportConfig::default();
    assert_eq!(config.max_buffer_size, MAX_BUFFER_SIZE);
    assert_eq!(config.batch_size, DEFAULT_BATCH_SIZE);
    assert!(config.compression);
}

#[test]
fn export_config_default_endpoint_and_timeout() {
    let config = ExportConfig::default();
    assert!(config.endpoint.is_empty());
    assert_eq!(config.timeout_secs, 30);
}

#[test]
fn test_export_batch_creation() {
    let batch = ExportBatch { batch_id: "batch-1".to_string(), records: vec!["trace1"], size_bytes: 120, created_at: 0 };
    assert!(batch.is_valid());
    assert!(!batch.batch_id.is_empty());
}

#[test]
fn test_export_buffer_push() {
    let mut buffer = ExportBuffer::new(100, 10);
    for i in 0..15 {
        let batch = buffer.push(format!("trace{}", i));
        // First batch should be created at 10 records
        if i == 9 {
            assert!(batch.is_some());
            assert_eq!(batch.unwrap().len(), 10);
        }
    }
}

#[test]
fn test_export_buffer_full() {
    let mut buffer = ExportBuffer::new(5, 10);
    for i in 0..10 {
        buffer.push(format!("trace{}", i));
    }
    // Should have max 5 records (oldest dropped)
    assert_eq!(buffer.len(), 5);
}

#[test]
fn test_validate_record_empty_id() {
    assert!(check_record("", 100).is_err());
}

#[test]
fn test_export_buffer_is_empty() {
    let buffer: ExportBuffer<String> = ExportBuffer::with_default_limits();
    assert!(buffer.is_empty());
}

#[test]
fn export_buffer_drops_oldest_and_flushes_in_order() {
    let mut buffer = ExportBuffer::new(3, 10);
    for i in 0..5 {
        assert!(buffer.push(i).is_none());
    }
    assert_eq!(buffer.flush(), Some(vec![2, 3, 4]));
    assert!(buffer.is_empty());
    assert_eq!(buffer.flush(), None);
}

#[test]
fn export_batch_validity_limits() {
    let empty: ExportBatch<u8> = ExportBatch { batch_id: "b".to_string(), records: vec![], size_bytes: 0, created_at: 0 };
    assert!(!empty.is_valid());
    let big = ExportBatch { batch_id: "b".to_string(), records: vec![1u8], size_bytes: MAX_PAYLOAD_SIZE + 1, created_at: 0 };
    assert!(!big.is_valid());
    let at_limit = ExportBatch { batch_id: "b".to_string(), records: vec![1u8], size_bytes: MAX_PAYLOAD_SIZE, created_at: 0 };
    assert!(at_limit.is_valid());
}

#[test]
fn record_check_refusals() {
    assert!(matches!(check_record("", 0), Err(TelemetryError::ValidationError(ValidationError::EmptyValue(_)))));
    assert!(matches!(check_record("id", MAX_PAYLOAD_SIZE + 1), Err(TelemetryError::PayloadTooLarge(n)) if n == MAX_PAYLOAD_SIZE));
    assert!(check_record("id", MAX_PAYLOAD_SIZE).is_ok());
}

#[test]
fn test_cardinality_limiter_allows_within_bounds() {
    let mut limiter = CardinalityLimiter::new(3);
    assert!(limiter.allow_label("label1"));
    assert!(limiter.allow_label("label2"));
    assert!(limiter.allow_label("label3"));
}

#[test]
fn test_cardinality_limiter_rejects_beyond_max() {
    let mut limiter = CardinalityLimiter::new(2);
    assert!(limiter.allow_label("label1"));
    assert!(limiter.allow_label("label2"));
    assert!(!limiter.allow_label("label3"));
}

#[test]
fn test_cardinality_limiter_allows_duplicate() {
    let mut limiter = CardinalityLimiter::new(2);
    assert!(limiter.allow_label("label1"));
    assert!(limiter.allow_label("label1"));
    assert!(limiter.allow_label("label2"));
}

#[test]
fn test_cardinality_limiter_reset() {
    let mut limiter = CardinalityLimiter::new(2);
    assert!(limiter.allow_label("label1"));
    assert!(limiter.allow_label("label2"));
    assert!(!limiter.allow_label("label3"));

    limiter.reset();

    assert!(limiter.allow_label("label3"));
}

#[test]
fn cardinality_limiter_keeps_admitting_seen_values_at_the_limit() {
    let mut limiter = CardinalityLimiter::new(1);
    assert!(limiter.allow_label("a"));
    assert!(!limiter.allow_label("b"));
    assert!(limiter.allow_label("a"));
    let mut none = CardinalityLimiter::new(0);
    assert!(!none.allow_label("a"));
}

#[test]
fn flush_wait_defaults_without_setting() {
    assert_eq!(flush_timeout_from(None), Duration::from_secs(DEFAULT_FLUSH_TIMEOUT_SECS));
    assert_eq!(DEFAULT_FLUSH_TIMEOUT_SECS, 5);
}

#[test]
fn flush_wait_reads_setting() {
    assert_eq!(flush_timeout_from(Some("10")), Duration::from_secs(10));
}

#[test]
fn flush_wait_ignores_unreadable_setting() {
    assert_eq!(flush_timeout_from(Some("not-a-number")), Duration::from_secs(5));
}

#[test]
fn unsigned_text_reading_matches_std() {
    for text in ["0", "+5", "007", "18446744073709551615", "18446744073709551616", "-5", "", "+", " 7", "7 ", "1_000", "+-1", "99999999999999999999999"] {
        assert_eq!(parse_u64(text), text.parse::<u64>().ok(), "{text:?}");
    }
}
