use std::collections::HashMap;

use hmac::{Hmac, Mac};
use sha2::Sha256;
use synapse_core::secrets::{EnvSecretsManager, RotatingSecret, SecretsStore};
use synapse_core::telemetry::error_handling::TelemetryError;
use synapse_core::telemetry::health_checks::{
    validate_request, ComponentStatus, HealthCheckConfig, HealthCheckManager,
};
use synapse_core::telemetry::webhook::{TelemetryWebhookHandler, WebhookPayload, MAX_PAYLOAD_BYTES};
use synapse_core::token_bucket::TokenBucket;
use synapse_core::ws::connection_pool::{ConnectionPool, PoolConfig, PoolError};

// -- websocket connection pool --

#[test]
fn test_pool_creation() {
    let config = PoolConfig { max_connections: 10, min_connections: 2 };
    let pool = ConnectionPool::new(config);
    assert_eq!(pool.capacity(), 10);
    assert_eq!(pool.active_connections(), 0);
}

#[test]
fn test_acquire_connection() {
    let config = PoolConfig { max_connections: 5, min_connections: 1 };
    let mut pool = ConnectionPool::new(config);
    let _permit = pool.acquire().unwrap();
    assert_eq!(pool.active_connections(), 1);
}

#[test]
fn test_release_connection() {
    let config = PoolConfig { max_connections: 5, min_connections: 1 };
    let mut pool = ConnectionPool::new(config);
    {
        let permit = pool.acquire().unwrap();
        assert_eq!(pool.active_connections(), 1);
        pool.release(permit);
    }
    assert_eq!(pool.active_connections(), 0);
}

#[test]
fn test_pool_capacity_limit() {
    let config = PoolConfig { max_connections: 2, min_connections: 1 };
    let mut pool = ConnectionPool::new(config);
    let _p1 = pool.acquire().unwrap();
    let _p2 = pool.acquire().unwrap();
    assert!(pool.is_full());
    assert_eq!(pool.available_permits(), 0);
}

#[test]
fn test_multiple_acquisitions() {
    let config = PoolConfig { max_connections: 10, min_connections: 1 };
    let mut pool = ConnectionPool::new(config);
    let _p1 = pool.acquire().unwrap();
    let _p2 = pool.acquire().unwrap();
    let _p3 = pool.acquire().unwrap();
    assert_eq!(pool.active_connections(), 3);
    assert_eq!(pool.available_permits(), 7);
}

#[test]
fn test_pool_config_default() {
    let config = PoolConfig::default();
    assert_eq!(config.max_connections, 1000);
    assert_eq!(config.min_connections, 10);
}

#[test]
fn full_pool_refuses_until_release() {
    let mut pool = ConnectionPool::new(PoolConfig { max_connections: 1, min_connections: 0 });
    let p = pool.acquire().unwrap();
    let err = pool.acquire().unwrap_err();
    assert_eq!(err, PoolError::AcquisitionFailed);
    assert_eq!(err.to_string(), "connection pool is at capacity; try again later");
    assert_eq!(pool.active_connections(), 1);
    pool.release(p);
    assert!(pool.acquire().is_ok());
}

// -- rotating secrets --

#[test]
fn rotation_keeps_previous_during_grace() {
    let mut s = RotatingSecret::new("one".to_string());
    assert_eq!(s.valid_values(), vec!["one"]);
    s.rotate("two".to_string());
    assert_eq!(s.current, "two");
    assert_eq!(s.valid_values(), vec!["two", "one"]);
    assert_eq!(s.valid_values_after(299_999_999_999), vec!["two", "one"]);
    assert_eq!(s.valid_values_after(300_000_000_000), vec!["two"]);
}

// -- token bucket --

#[test]
fn bucket_grants_capacity_then_refuses_until_window() {
    let mut b = TokenBucket::new(2, 100, 0);
    assert!(b.try_acquire_at(1));
    assert!(b.try_acquire_at(2));
    assert!(!b.try_acquire_at(99));
    assert_eq!(b.available_at(99), 0);
    assert_eq!(b.available_at(100), 2);
    assert!(b.try_acquire_at(100));
    assert_eq!(b.acquired(), 3);
    assert_eq!(b.rejected(), 1);
    b.reset_at(150);
    assert_eq!(b.available_at(151), 2);
    assert_eq!(b.capacity(), 2);
}

// -- webhook --

const SECRET: &[u8] = b"test-secret-key-for-unit-tests";

fn sign(body: &[u8]) -> String {
    let mut mac = Hmac::<Sha256>::new_from_slice(SECRET).unwrap();
    mac.update(body);
    hex::encode(mac.finalize().into_bytes())
}

fn now_ms() -> u64 {
    std::time::SystemTime::now()
        .duration_since(std::time::UNIX_EPOCH)
        .map(|d| d.as_millis() as u64)
        .unwrap_or(0)
}

fn valid_body(ts: u64) -> Vec<u8> {
    format!(
        r#"{{"timestamp_ms":{},"source":"payment-service","event_type":"settlement_completed","span_name":"process_settlement","attributes":{{}}}}"#,
        ts
    )
    .into_bytes()
}

fn parse_payload(body: &[u8]) -> Result<WebhookPayload, TelemetryError> {
    let v: serde_json::Value = serde_json::from_slice(body).map_err(|e| {
        TelemetryError::ValidationError(synapse_core::telemetry::input_validation::ValidationError::InvalidFormat(
            format!("invalid JSON: {}", e),
        ))
    })?;
    let text = |k: &str| v.get(k).and_then(|x| x.as_str()).map(str::to_string);
    let bad = || {
        TelemetryError::ValidationError(synapse_core::telemetry::input_validation::ValidationError::InvalidFormat(
            "invalid JSON: missing field".to_string(),
        ))
    };
    let mut attributes = HashMap::new();
    if let Some(obj) = v.get("attributes").and_then(|a| a.as_object()) {
        for (k, val) in obj {
            attributes.insert(k.clone(), val.as_str().unwrap_or_default().to_string());
        }
    }
    Ok(WebhookPayload {
        timestamp_ms: v.get("timestamp_ms").and_then(|x| x.as_u64()).ok_or_else(bad)?,
        source: text("source").ok_or_else(bad)?,
        event_type: text("event_type").ok_or_else(bad)?,
        span_name: text("span_name"),
        attributes,
    })
}

fn process(
    handler: &TelemetryWebhookHandler,
    body: &[u8],
    signature: &str,
) -> Result<synapse_core::telemetry::webhook::WebhookResult, TelemetryError> {
    handler.check_request(body, signature)?;
    let payload = parse_payload(body)?;
    handler.accept_payload(&payload, now_ms())
}

#[test]
fn empty_secret_rejected() {
    assert!(TelemetryWebhookHandler::new(b"".to_vec()).is_err());
}

#[test]
fn valid_payload_accepted() {
    let handler = TelemetryWebhookHandler::new(SECRET.to_vec()).unwrap();
    let body = valid_body(now_ms());
    let sig = sign(&body);
    let result = process(&handler, &body, &sig).unwrap();
    assert!(result.accepted);
    assert_eq!(result.message, "event recorded");
}

#[test]
fn invalid_signature_rejected() {
    let handler = TelemetryWebhookHandler::new(SECRET.to_vec()).unwrap();
    let body = valid_body(now_ms());
    assert!(process(&handler, &body, "deadbeef").is_err());
}

#[test]
fn missing_signature_rejected() {
    let handler = TelemetryWebhookHandler::new(SECRET.to_vec()).unwrap();
    let body = valid_body(now_ms());
    assert!(process(&handler, &body, "").is_err());
}

#[test]
fn oversized_payload_rejected() {
    let handler = TelemetryWebhookHandler::new(SECRET.to_vec()).unwrap();
    let body = vec![0u8; MAX_PAYLOAD_BYTES + 1];
    let sig = sign(&body);
    let result = process(&handler, &body, &sig);
    assert!(matches!(result, Err(TelemetryError::PayloadTooLarge(_))));
}

#[test]
fn stale_timestamp_rejected() {
    let handler = TelemetryWebhookHandler::new(SECRET.to_vec()).unwrap();
    let old_ts = now_ms().saturating_sub(600_000);
    let body = valid_body(old_ts);
    let sig = sign(&body);
    assert!(process(&handler, &body, &sig).is_err());
}

#[test]
fn future_timestamp_rejected() {
    let handler = TelemetryWebhookHandler::new(SECRET.to_vec()).unwrap();
    let future_ts = now_ms() + 600_000;
    let body = valid_body(future_ts);
    let sig = sign(&body);
    assert!(process(&handler, &body, &sig).is_err());
}

#[test]
fn invalid_json_rejected() {
    let handler = TelemetryWebhookHandler::new(SECRET.to_vec()).unwrap();
    let body = b"not json at all";
    let sig = sign(body);
    assert!(process(&handler, body, &sig).is_err());
}

#[test]
fn invalid_source_field_rejected() {
    let handler = TelemetryWebhookHandler::new(SECRET.to_vec()).unwrap();
    let body = format!(
        r#"{{"timestamp_ms":{},"source":"bad source with spaces!","event_type":"test_event","attributes":{{}}}}"#,
        now_ms()
    )
    .into_bytes();
    let sig = sign(&body);
    assert!(process(&handler, &body, &sig).is_err());
}

#[test]
fn non_hex_signature_rejected() {
    let handler = TelemetryWebhookHandler::new(SECRET.to_vec()).unwrap();
    let body = valid_body(now_ms());
    assert!(process(&handler, &body, "not-hex!!").is_err());
}

#[test]
fn signature_errors_are_distinguished() {
    let handler = TelemetryWebhookHandler::new(SECRET.to_vec()).unwrap();
    let body = valid_body(1);
    let msg = |r: Result<(), TelemetryError>| r.unwrap_err().to_string();
    assert_eq!(msg(handler.check_request(&body, "")), "Validation error: Empty value: missing webhook signature");
    assert_eq!(msg(handler.check_request(&body, "abc")), "Validation error: Invalid format: signature must be hex-encoded");
    assert_eq!(msg(handler.check_request(&body, "DEADBEEF")), "Validation error: Invalid format: invalid webhook signature");
    assert!(handler.check_request(&body, &sign(&body).to_uppercase()).is_ok());
}

#[test]
fn timestamp_window_boundaries() {
    let handler = TelemetryWebhookHandler::new(SECRET.to_vec()).unwrap();
    assert!(handler.check_timestamp_at(1_000_000, 1_300_000).is_ok());
    assert!(handler.check_timestamp_at(1_000_000, 1_300_001).is_err());
    assert!(handler.check_timestamp_at(1_300_000, 1_000_000).is_ok());
    assert!(handler.check_timestamp_at(1_300_001, 1_000_000).is_err());
}

#[test]
fn invalid_attribute_rejected() {
    let handler = TelemetryWebhookHandler::new(SECRET.to_vec()).unwrap();
    let mut attributes = HashMap::new();
    attributes.insert("ok_key".to_string(), "has\0nul".to_string());
    let p = WebhookPayload {
        timestamp_ms: 10,
        source: "svc".to_string(),
        event_type: "evt".to_string(),
        span_name: None,
        attributes,
    };
    assert!(handler.validate_payload(&p).is_err());
    assert!(handler.accept_payload(&p, 10).is_err());
}

// -- health checks --

#[test]
fn test_invalid_empty_check_type() {
    assert!(validate_request("").unwrap_err().contains("cannot be empty"));
}

#[test]
fn test_invalid_check_type_too_long() {
    assert!(validate_request(&"a".repeat(300)).unwrap_err().contains("exceeds maximum length"));
}

#[test]
fn test_invalid_check_type_special_chars() {
    assert!(validate_request("database@!$%").unwrap_err().contains("invalid characters"));
}

#[test]
fn health_check_is_cached_then_rate_limited() {
    let mut m = HealthCheckManager::with_config(HealthCheckConfig { cache_duration_secs: 5, max_uncached_checks_per_interval: 1 });
    let r1 = m.check_at("database", 0, 111).unwrap();
    assert_eq!(r1.status, "healthy");
    assert_eq!(r1.timestamp, 111);
    let r2 = m.check_at("database", 1_000, 222).unwrap();
    assert_eq!(r2.timestamp, 111);
    let r3 = m.check_at("database", 6_000_000_000, 333).unwrap();
    assert_eq!(r3.timestamp, 333);
    let r4 = m.check_at("database", 12_000_000_001, 444).unwrap();
    assert_eq!(r4.timestamp, 444);
    assert!(m.check_at("bad type", 0, 0).is_err());
}

#[test]
fn beyond_allowance_stale_cache_is_returned() {
    let mut m = HealthCheckManager::with_config(HealthCheckConfig { cache_duration_secs: 5, max_uncached_checks_per_interval: 0 });
    let r1 = m.check_at("database", 0, 111).unwrap();
    assert_eq!(r1.timestamp, 111);
    let r2 = m.check_at("database", 6_000_000_000, 222).unwrap();
    assert_eq!(r2.timestamp, 111);
}

#[test]
fn test_valid_health_check_and_default() {
    let mut m = HealthCheckManager::default();
    let r = m.check("database").unwrap();
    assert_eq!(r.status, "healthy");
    let r2 = m.check("database").unwrap();
    assert_eq!(r.timestamp, r2.timestamp);
    assert_eq!(ComponentStatus::unhealthy("down".to_string()).status, "unhealthy");
    assert!(ComponentStatus::healthy().message.is_none());
    assert_eq!(HealthCheckConfig::default().max_uncached_checks_per_interval, 2);
}

#[test]
fn test_secret_missing_error() {
    let mut manager = EnvSecretsManager::new();
    // The environment has no such variable: the caller passes its absence.
    let result = manager.remember("NON_EXISTENT_SECRET", None);
    assert!(result.is_err());
    assert!(result.unwrap_err().contains("Secret 'NON_EXISTENT_SECRET' not found"));
    assert_eq!(manager.cache_size(), 0);
}

#[test]
fn env_secrets_are_cached_and_rotated() {
    let mut manager = EnvSecretsManager::new();
    assert_eq!(manager.cached("DB"), None);
    assert_eq!(manager.remember("DB", Some("pw1".to_string())), Ok("pw1".to_string()));
    assert_eq!(manager.cached("DB"), Some("pw1".to_string()));
    assert_eq!(manager.cache_size(), 1);
    manager.rotate_secret("DB", "pw2".to_string());
    assert_eq!(manager.cached("DB"), Some("pw2".to_string()));
    assert_eq!(manager.cache_size(), 1);
    manager.rotate_secret("API", "k".to_string());
    assert_eq!(manager.cache_size(), 2);
    manager.clear_cache();
    assert_eq!(manager.cache_size(), 0);
    assert_eq!(manager.cached("DB"), None);
}

#[test]
fn refresh_rotates_only_on_a_new_value() {
    let mut s = RotatingSecret::new("one".to_string());
    assert!(!s.refresh(Ok("one".to_string())));
    assert!(s.previous.is_none());
    assert!(!s.refresh(Err("vault down".to_string())));
    assert_eq!(s.current, "one");
    assert!(s.refresh(Ok("two".to_string())));
    assert_eq!(s.current, "two");
    assert_eq!(s.previous.as_ref().map(|p| p.0.as_str()), Some("one"));
}

#[test]
fn secrets_store_lists_valid_values() {
    let mut store = SecretsStore::new("hook-1".to_string(), "admin-1".to_string());
    assert_eq!(store.valid_webhook_secrets(), vec!["hook-1".to_string()]);
    store.admin_api_key.rotate("admin-2".to_string());
    assert_eq!(store.valid_admin_keys(), vec!["admin-2".to_string(), "admin-1".to_string()]);
}
