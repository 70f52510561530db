use std::time::Duration;

use synapse_core::ws::health::{HealthChecker, HealthStatus};
use synapse_core::ws::metrics::WebSocketMetrics;

// --- metrics ---

#[test]
fn test_metrics_creation() {
    let metrics = WebSocketMetrics::new();
    assert_eq!(metrics.total_connections(), 0);
    assert_eq!(metrics.active_connections(), 0);
    assert_eq!(metrics.messages_sent(), 0);
    assert_eq!(metrics.messages_received(), 0);
    assert_eq!(metrics.connection_errors(), 0);
    assert_eq!(metrics.message_errors(), 0);
}

#[test]
fn test_record_connection() {
    let mut metrics = WebSocketMetrics::new();
    metrics.record_connection();
    assert_eq!(metrics.total_connections(), 1);
    assert_eq!(metrics.active_connections(), 1);
}

#[test]
fn test_record_disconnection() {
    let mut metrics = WebSocketMetrics::new();
    metrics.record_connection();
    metrics.record_disconnection();
    assert_eq!(metrics.total_connections(), 1);
    assert_eq!(metrics.active_connections(), 0);
}

#[test]
fn test_record_message_sent() {
    let mut metrics = WebSocketMetrics::new();
    metrics.record_message_sent(100);
    assert_eq!(metrics.messages_sent(), 1);
    assert_eq!(metrics.bytes_sent(), 100);
}

#[test]
fn test_record_message_received() {
    let mut metrics = WebSocketMetrics::new();
    metrics.record_message_received(50);
    assert_eq!(metrics.messages_received(), 1);
    assert_eq!(metrics.bytes_received(), 50);
}

#[test]
fn test_record_connection_error() {
    let mut metrics = WebSocketMetrics::new();
    metrics.record_connection_error();
    assert_eq!(metrics.connection_errors(), 1);
}

#[test]
fn test_record_message_error() {
    let mut metrics = WebSocketMetrics::new();
    metrics.record_message_error();
    assert_eq!(metrics.message_errors(), 1);
}

#[test]
fn test_multiple_connections() {
    let mut metrics = WebSocketMetrics::new();
    metrics.record_connection();
    metrics.record_connection();
    metrics.record_connection();
    assert_eq!(metrics.total_connections(), 3);
    assert_eq!(metrics.active_connections(), 3);
}

#[test]
fn test_connection_lifecycle() {
    let mut metrics = WebSocketMetrics::new();
    metrics.record_connection();
    metrics.record_message_sent(100);
    metrics.record_message_received(50);
    metrics.record_disconnection();

    assert_eq!(metrics.total_connections(), 1);
    assert_eq!(metrics.active_connections(), 0);
    assert_eq!(metrics.messages_sent(), 1);
    assert_eq!(metrics.messages_received(), 1);
}

#[test]
fn test_time_since_last_connection() {
    let mut metrics = WebSocketMetrics::new();
    assert!(metrics.time_since_last_connection().is_none());

    metrics.record_connection();
    let elapsed = metrics.time_since_last_connection();
    assert!(elapsed.is_some());
    assert!(elapsed.unwrap().as_millis() < 100);
}

#[test]
fn test_time_since_last_message() {
    let mut metrics = WebSocketMetrics::new();
    assert!(metrics.time_since_last_message().is_none());

    metrics.record_message_sent(100);
    let elapsed = metrics.time_since_last_message();
    assert!(elapsed.is_some());
    assert!(elapsed.unwrap().as_millis() < 100);
}

#[test]
fn test_reset() {
    let mut metrics = WebSocketMetrics::new();
    metrics.record_connection();
    metrics.record_message_sent(100);
    metrics.record_connection_error();

    metrics.reset();

    assert_eq!(metrics.total_connections(), 0);
    assert_eq!(metrics.active_connections(), 0);
    assert_eq!(metrics.messages_sent(), 0);
    assert_eq!(metrics.connection_errors(), 0);
    assert!(metrics.time_since_last_connection().is_none());
    assert!(metrics.time_since_last_message().is_none());
}

#[test]
fn test_byte_accumulation() {
    let mut metrics = WebSocketMetrics::new();
    metrics.record_message_sent(100);
    metrics.record_message_sent(50);
    metrics.record_message_received(75);

    assert_eq!(metrics.bytes_sent(), 150);
    assert_eq!(metrics.bytes_received(), 75);
}

#[test]
fn test_error_accumulation() {
    let mut metrics = WebSocketMetrics::new();
    metrics.record_connection_error();
    metrics.record_connection_error();
    metrics.record_message_error();

    assert_eq!(metrics.connection_errors(), 2);
    assert_eq!(metrics.message_errors(), 1);
}

#[test]
fn test_default_metrics() {
    let metrics = WebSocketMetrics::default();
    assert_eq!(metrics.total_connections(), 0);
    assert_eq!(metrics.active_connections(), 0);
}

#[test]
fn disconnection_without_connection_wraps_around() {
    let mut metrics = WebSocketMetrics::new();
    metrics.record_disconnection();
    assert_eq!(metrics.active_connections(), u64::MAX);
    metrics.record_connection();
    assert_eq!(metrics.active_connections(), 0);
}

#[test]
fn byte_counter_wraps_around() {
    let mut metrics = WebSocketMetrics::new();
    metrics.record_message_sent(u64::MAX);
    metrics.record_message_sent(2);
    assert_eq!(metrics.bytes_sent(), 1);
    assert_eq!(metrics.messages_sent(), 2);
}

// --- health ---

#[test]
fn test_health_checker_creation() {
    let checker = HealthChecker::new(Duration::from_secs(10), None);
    assert!(checker.is_healthy());
    assert_eq!(checker.status(), HealthStatus::Healthy);
}

#[test]
fn test_mark_unhealthy() {
    let mut checker = HealthChecker::new(Duration::from_secs(10), None);
    checker.mark_unhealthy();
    assert!(!checker.is_healthy());
    assert_eq!(checker.status(), HealthStatus::Unhealthy);
}

#[test]
fn test_mark_healthy() {
    let mut checker = HealthChecker::new(Duration::from_secs(10), None);
    checker.mark_unhealthy();
    checker.mark_healthy();
    assert!(checker.is_healthy());
    assert_eq!(checker.status(), HealthStatus::Healthy);
}

#[test]
fn test_mark_degraded() {
    let mut checker = HealthChecker::new(Duration::from_secs(10), None);
    checker.mark_degraded();
    assert!(checker.is_healthy()); // degraded is still "up"
    assert_eq!(checker.status(), HealthStatus::Degraded);
}

#[test]
fn test_mark_healthy_clears_degraded() {
    let mut checker = HealthChecker::new(Duration::from_secs(10), None);
    checker.mark_degraded();
    checker.mark_healthy();
    assert_eq!(checker.status(), HealthStatus::Healthy);
}

#[test]
fn test_unhealthy_takes_priority_over_degraded() {
    let mut checker = HealthChecker::new(Duration::from_secs(10), None);
    checker.mark_degraded();
    checker.mark_unhealthy();
    assert_eq!(checker.status(), HealthStatus::Unhealthy);
}

#[test]
fn test_should_check_initially_false() {
    let checker = HealthChecker::new(Duration::from_secs(10), None);
    assert!(!checker.should_check());
}

#[test]
fn test_time_since_last_check() {
    let checker = HealthChecker::new(Duration::from_secs(10), None);
    let elapsed = checker.time_since_last_check();
    assert!(elapsed.as_millis() < 100);
}

#[test]
fn test_default_health_checker() {
    let checker = HealthChecker::default();
    assert!(checker.is_healthy());
    assert_eq!(checker.interval(), Duration::from_secs(30));
}

#[test]
fn test_input_validation() {
    let checker = HealthChecker::new(Duration::from_secs(10), None);

    assert!(checker.validate_input("valid_input").is_ok());
    assert!(checker.validate_input("").is_ok());
    assert!(checker.validate_input("\u{0000}invalid").is_err());
}

#[test]
fn check_is_due_once_the_interval_has_elapsed() {
    let checker = HealthChecker::new(Duration::from_secs(10), None);
    assert!(!checker.check_due_after(&Duration::from_millis(9_999)));
    assert!(checker.check_due_after(&Duration::from_secs(10)));
    assert!(checker.check_due_after(&Duration::from_secs(11)));
}

#[test]
fn health_input_refusals() {
    let checker = HealthChecker::new(Duration::from_secs(10), None);
    assert_eq!(
        checker.validate_input("ok\u{7f}"),
        Err("input contains invalid control characters".to_string())
    );
    assert_eq!(checker.validate_input("   "), Err("health_input: must not be empty".to_string()));
}
