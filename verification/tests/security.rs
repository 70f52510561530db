use std::time::Duration;

use synapse_core::security::connection_pool::{
    validate_endpoint, SecurityConnectionPool, SecurityPoolConfig, SecurityPoolError, MAX_ENDPOINT_LEN,
};
use synapse_core::security::error::SecurityError;
use synapse_core::security::session::{
    session_status, validate_session_params, SessionValidationError, MAX_SESSION_TTL_SECS, MAX_USER_ID_LEN, validate_session, SessionRecord,
};

// -- endpoint validation --

#[test]
fn https_endpoint_accepted() {
    assert!(validate_endpoint("https://vault.internal:8200").is_ok());
}

#[test]
fn http_endpoint_rejected() {
    assert!(validate_endpoint("http://vault.internal:8200").is_err());
}

#[test]
fn ftp_endpoint_rejected() {
    assert!(validate_endpoint("ftp://vault.internal:8200").is_err());
}

#[test]
fn empty_endpoint_rejected() {
    assert!(validate_endpoint("").is_err());
}

#[test]
fn endpoint_too_long_rejected() {
    let long = format!("https://{}", "a".repeat(MAX_ENDPOINT_LEN));
    assert!(validate_endpoint(&long).is_err());
}

#[test]
fn endpoint_at_exact_limit_accepted() {
    let ok = format!("https://{}", "a".repeat(MAX_ENDPOINT_LEN - 8));
    assert_eq!(ok.len(), MAX_ENDPOINT_LEN);
    assert!(validate_endpoint(&ok).is_ok());
}

// -- pool construction --

#[test]
fn default_pool_constructs_successfully() {
    assert!(SecurityConnectionPool::new().is_ok());
}

#[test]
fn zero_max_size_rejected() {
    let config = SecurityPoolConfig { max_size: 0, ..Default::default() };
    assert!(SecurityConnectionPool::with_config(config).is_err());
}

#[test]
fn invalid_endpoint_scheme_rejected_at_construction() {
    let config = SecurityPoolConfig { endpoint: "http://vault.internal:8200".to_string(), ..Default::default() };
    assert!(SecurityConnectionPool::with_config(config).is_err());
}

// -- acquire / release --

#[test]
fn acquire_creates_connection() {
    let mut pool = SecurityConnectionPool::new().unwrap();
    let conn = pool.acquire().unwrap();
    assert_eq!(conn.id, 1);
    assert_eq!(pool.total_count(), 1);
}

#[test]
fn release_returns_connection_to_pool() {
    let mut pool = SecurityConnectionPool::new().unwrap();
    let conn = pool.acquire().unwrap();
    pool.release(conn);
    assert_eq!(pool.idle_count(), 1);
}

#[test]
fn acquire_reuses_idle_connection() {
    let mut pool = SecurityConnectionPool::new().unwrap();
    let conn = pool.acquire().unwrap();
    let id = conn.id;
    pool.release(conn);
    let conn2 = pool.acquire().unwrap();
    assert_eq!(conn2.id, id);
    assert_eq!(pool.total_count(), 1);
}

#[test]
fn exhausted_error_at_capacity() {
    let config = SecurityPoolConfig { max_size: 2, ..Default::default() };
    let mut pool = SecurityConnectionPool::with_config(config).unwrap();
    let _c1 = pool.acquire().unwrap();
    let _c2 = pool.acquire().unwrap();
    assert!(matches!(pool.acquire(), Err(SecurityPoolError::Exhausted(2))));
}

#[test]
fn stale_idle_connection_evicted_at_later_reading() {
    let config = SecurityPoolConfig { max_idle: Duration::from_nanos(1), ..Default::default() };
    let mut pool = SecurityConnectionPool::with_config(config).unwrap();
    let conn = pool.acquire_at(10).unwrap();
    pool.release_at(conn, 10);
    assert_eq!(pool.idle_count(), 1);
    let conn2 = pool.acquire_at(1_000).unwrap();
    assert_eq!(conn2.id, 2);
    assert_eq!(pool.total_count(), 1);
}

#[test]
fn stale_release_decrements_total_at_later_reading() {
    let config = SecurityPoolConfig { max_idle: Duration::from_nanos(1), ..Default::default() };
    let mut pool = SecurityConnectionPool::with_config(config).unwrap();
    let conn = pool.acquire_at(5).unwrap();
    assert_eq!(pool.total_count(), 1);
    pool.release_at(conn, 500);
    assert_eq!(pool.total_count(), 0);
    assert_eq!(pool.idle_count(), 0);
}

#[test]
fn pool_error_converts_to_security_error() {
    let pool_err = SecurityPoolError::Exhausted(5);
    let _: SecurityError = pool_err.into();
}

#[test]
fn pool_exhaustion_becomes_rate_limit_error() {
    let e: SecurityError = SecurityPoolError::Exhausted(5).into();
    assert_eq!(e, SecurityError::RateLimitExceeded);
    assert_eq!(e.status_code(), 429);
}

// -- errors --

#[test]
fn rate_limit_exceeded_status_and_code() {
    let e = SecurityError::RateLimitExceeded;
    assert_eq!(e.status_code(), 429);
    assert_eq!(e.code(), "ERR_SECURITY_001");
    assert_eq!(e.to_string(), "Rate limit exceeded");
}

#[test]
fn session_validation_status_and_code() {
    let e = SecurityError::SessionValidation(SessionValidationError::EmptyUserId);
    assert_eq!(e.status_code(), 400);
    assert_eq!(e.code(), "ERR_SECURITY_002");
    assert!(e.to_string().contains("Session validation failed"));
}

#[test]
fn session_validation_from_impl() {
    let inner = SessionValidationError::InvalidTtl;
    let e: SecurityError = inner.into();
    assert_eq!(e.status_code(), 400);
}

#[test]
fn session_validation_display_includes_inner() {
    let e = SecurityError::SessionValidation(SessionValidationError::Expired);
    assert!(e.to_string().contains("expired") || e.to_string().contains("Session validation failed"));
}

// -- session parameters --

#[test]
fn test_valid_params() {
    assert!(validate_session_params("user123", 3600).is_ok());
}

#[test]
fn test_empty_user_id() {
    assert!(matches!(validate_session_params("", 3600), Err(SessionValidationError::EmptyUserId)));
}

#[test]
fn test_user_id_too_long() {
    let long_id = "a".repeat(MAX_USER_ID_LEN + 1);
    assert!(matches!(validate_session_params(&long_id, 3600), Err(SessionValidationError::UserIdTooLong)));
}

#[test]
fn test_invalid_ttl_zero() {
    assert!(matches!(validate_session_params("user", 0), Err(SessionValidationError::InvalidTtl)));
}

#[test]
fn test_invalid_ttl_negative() {
    assert!(matches!(validate_session_params("user", -1), Err(SessionValidationError::InvalidTtl)));
}

#[test]
fn test_invalid_ttl_exceeds_max() {
    assert!(matches!(
        validate_session_params("user", MAX_SESSION_TTL_SECS + 1),
        Err(SessionValidationError::InvalidTtl)
    ));
}

#[test]
fn max_ttl_and_max_user_id_accepted() {
    let id = "u".repeat(MAX_USER_ID_LEN);
    assert!(validate_session_params(&id, MAX_SESSION_TTL_SECS).is_ok());
}

#[test]
fn session_status_outcomes() {
    assert!(matches!(session_status(false, 100, 50), Err(SessionValidationError::Inactive)));
    assert!(matches!(session_status(true, 100, 100), Err(SessionValidationError::Expired)));
    assert!(session_status(true, 100, 99).is_ok());
}

#[test]
fn session_error_messages() {
    assert_eq!(SessionValidationError::Expired.to_string(), "Session has expired");
    assert_eq!(SessionValidationError::InvalidTtl.to_string(), "TTL must be between 1 and 86400 seconds");
}

fn session(offset_micros: i64, is_active: bool) -> SessionRecord {
    SessionRecord {
        id: uuid::Uuid::new_v4(),
        user_id: "user1".into(),
        expires_at: chrono::Utc::now().timestamp_micros() + offset_micros,
        is_active,
    }
}

#[test]
fn test_valid_session() {
    assert!(validate_session(&session(3_600_000_000, true)).is_ok());
}

#[test]
fn test_expired_session() {
    assert!(matches!(validate_session(&session(-1_000_000, true)), Err(SessionValidationError::Expired)));
}

#[test]
fn test_inactive_session() {
    assert!(matches!(validate_session(&session(3_600_000_000, false)), Err(SessionValidationError::Inactive)));
}

#[test]
fn pool_counts_stay_ordered_over_a_session() {
    let config = SecurityPoolConfig {
        max_size: 3,
        max_idle: Duration::from_secs(60),
        endpoint: "https://vault.internal:8200".to_string(),
    };
    let mut pool = SecurityConnectionPool::with_config(config).unwrap();
    let mut held = Vec::new();
    for round in 0..4 {
        for _ in 0..(round + 2) {
            if let Ok(c) = pool.acquire() {
                held.push(c);
            }
            assert!(pool.idle_count() <= pool.total_count());
            assert!(pool.total_count() <= 3);
        }
        while let Some(c) = held.pop() {
            pool.release(c);
            assert!(pool.idle_count() <= pool.total_count());
            assert!(pool.total_count() <= 3);
        }
    }
    assert_eq!(pool.idle_count(), 3);
    assert_eq!(pool.total_count(), 3);
}
