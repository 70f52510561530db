use std::time::Duration;

use synapse_core::telemetry::data_export::RecordType;
use synapse_core::telemetry::rate_limiting::{
    TelemetryRateLimitConfig, TelemetryRateLimitMetrics, TelemetryRateLimiter, DEFAULT_EVENT_LIMIT,
    DEFAULT_METRIC_LIMIT, DEFAULT_TRACE_LIMIT, DEFAULT_WINDOW_SECS,
};

const DEFAULT_WINDOW: Duration = Duration::from_secs(DEFAULT_WINDOW_SECS);

#[test]
fn test_default_config_values() {
    let config = TelemetryRateLimitConfig::default();
    assert_eq!(config.trace_limit, DEFAULT_TRACE_LIMIT);
    assert_eq!(config.metric_limit, DEFAULT_METRIC_LIMIT);
    assert_eq!(config.event_limit, DEFAULT_EVENT_LIMIT);
    assert_eq!(config.window, DEFAULT_WINDOW);
}

#[test]
fn test_custom_config_values() {
    let config = TelemetryRateLimitConfig {
        trace_limit: 100,
        metric_limit: 200,
        event_limit: 50,
        window: Duration::from_secs(30),
    };
    assert_eq!(config.trace_limit, 100);
    assert_eq!(config.metric_limit, 200);
    assert_eq!(config.event_limit, 50);
    assert_eq!(config.window.as_secs(), 30);
}

#[test]
fn test_trace_within_limit_succeeds() {
    let mut limiter = TelemetryRateLimiter::with_config(TelemetryRateLimitConfig {
        trace_limit: 5,
        ..Default::default()
    });

    for i in 0..5 {
        assert!(
            limiter.try_acquire_trace(),
            "Trace {} should be acquired",
            i + 1
        );
    }
}

#[test]
fn test_trace_exceeding_limit_fails() {
    let mut limiter = TelemetryRateLimiter::with_config(TelemetryRateLimitConfig {
        trace_limit: 3,
        ..Default::default()
    });

    assert!(limiter.try_acquire_trace());
    assert!(limiter.try_acquire_trace());
    assert!(limiter.try_acquire_trace());
    assert!(!limiter.try_acquire_trace(), "4th trace should be rejected");
}

#[test]
fn test_trace_burst_at_limit_boundary() {
    let mut limiter = TelemetryRateLimiter::with_config(TelemetryRateLimitConfig {
        trace_limit: 10,
        ..Default::default()
    });

    for i in 0..10 {
        assert!(limiter.try_acquire_trace(), "Trace {} should succeed", i + 1);
    }
    assert!(!limiter.try_acquire_trace(), "11th trace should fail");
}

#[test]
fn test_metric_within_limit_succeeds() {
    let mut limiter = TelemetryRateLimiter::with_config(TelemetryRateLimitConfig {
        metric_limit: 5,
        ..Default::default()
    });

    for i in 0..5 {
        assert!(
            limiter.try_acquire_metric(),
            "Metric {} should be acquired",
            i + 1
        );
    }
}

#[test]
fn test_metric_exceeding_limit_fails() {
    let mut limiter = TelemetryRateLimiter::with_config(TelemetryRateLimitConfig {
        metric_limit: 2,
        ..Default::default()
    });

    assert!(limiter.try_acquire_metric());
    assert!(limiter.try_acquire_metric());
    assert!(!limiter.try_acquire_metric(), "3rd metric should be rejected");
}

#[test]
fn test_event_within_limit_succeeds() {
    let mut limiter = TelemetryRateLimiter::with_config(TelemetryRateLimitConfig {
        event_limit: 3,
        ..Default::default()
    });

    assert!(limiter.try_acquire_event());
    assert!(limiter.try_acquire_event());
    assert!(limiter.try_acquire_event());
}

#[test]
fn test_event_exceeding_limit_fails() {
    let mut limiter = TelemetryRateLimiter::with_config(TelemetryRateLimitConfig {
        event_limit: 1,
        ..Default::default()
    });

    assert!(limiter.try_acquire_event());
    assert!(!limiter.try_acquire_event(), "2nd event should be rejected");
}

#[test]
fn test_types_have_independent_buckets() {
    let mut limiter = TelemetryRateLimiter::with_config(TelemetryRateLimitConfig {
        trace_limit: 1,
        metric_limit: 1,
        event_limit: 1,
        ..Default::default()
    });

    // Exhaust trace bucket
    assert!(limiter.try_acquire_trace());
    assert!(!limiter.try_acquire_trace());

    // Metric should still be available
    assert!(limiter.try_acquire_metric(), "Metric bucket is independent");
    assert!(!limiter.try_acquire_metric());

    // Event should still be available
    assert!(limiter.try_acquire_event(), "Event bucket is independent");
    assert!(!limiter.try_acquire_event());

    // Traces remain exhausted
    assert!(!limiter.try_acquire_trace());
}

#[test]
fn test_one_type_exhausted_does_not_affect_others() {
    let mut limiter = TelemetryRateLimiter::with_config(TelemetryRateLimitConfig {
        trace_limit: 2,
        metric_limit: 100,
        event_limit: 100,
        ..Default::default()
    });

    // Exhaust traces only
    assert!(limiter.try_acquire_trace());
    assert!(limiter.try_acquire_trace());
    assert!(!limiter.try_acquire_trace());

    // Metrics and events should still work fine
    assert!(limiter.try_acquire_metric());
    assert!(limiter.try_acquire_event());
}

#[test]
fn test_try_acquire_with_record_type_trace() {
    let mut limiter = TelemetryRateLimiter::with_config(TelemetryRateLimitConfig {
        trace_limit: 1,
        ..Default::default()
    });

    assert!(limiter.try_acquire(&RecordType::Trace));
    assert!(!limiter.try_acquire(&RecordType::Trace));
}

#[test]
fn test_try_acquire_with_record_type_metric() {
    let mut limiter = TelemetryRateLimiter::with_config(TelemetryRateLimitConfig {
        metric_limit: 1,
        ..Default::default()
    });

    assert!(limiter.try_acquire(&RecordType::Metric));
    assert!(!limiter.try_acquire(&RecordType::Metric));
}

#[test]
fn test_try_acquire_with_record_type_event() {
    let mut limiter = TelemetryRateLimiter::with_config(TelemetryRateLimitConfig {
        event_limit: 1,
        ..Default::default()
    });

    assert!(limiter.try_acquire(&RecordType::Event));
    assert!(!limiter.try_acquire(&RecordType::Event));
}

#[test]
fn test_remaining_traces_decrements_on_acquire() {
    let mut limiter = TelemetryRateLimiter::with_config(TelemetryRateLimitConfig {
        trace_limit: 10,
        ..Default::default()
    });

    assert_eq!(limiter.remaining_traces(), 10);
    limiter.try_acquire_trace();
    assert_eq!(limiter.remaining_traces(), 9);
    limiter.try_acquire_trace();
    assert_eq!(limiter.remaining_traces(), 8);
}

#[test]
fn test_remaining_metrics_decrements_on_acquire() {
    let mut limiter = TelemetryRateLimiter::with_config(TelemetryRateLimitConfig {
        metric_limit: 5,
        ..Default::default()
    });

    assert_eq!(limiter.remaining_metrics(), 5);
    limiter.try_acquire_metric();
    assert_eq!(limiter.remaining_metrics(), 4);
}

#[test]
fn test_remaining_events_decrements_on_acquire() {
    let mut limiter = TelemetryRateLimiter::with_config(TelemetryRateLimitConfig {
        event_limit: 3,
        ..Default::default()
    });

    assert_eq!(limiter.remaining_events(), 3);
    limiter.try_acquire_event();
    assert_eq!(limiter.remaining_events(), 2);
}

#[test]
fn test_remaining_zero_when_exhausted() {
    let mut limiter = TelemetryRateLimiter::with_config(TelemetryRateLimitConfig {
        trace_limit: 1,
        metric_limit: 2,
        event_limit: 3,
        ..Default::default()
    });

    limiter.try_acquire_trace();
    assert_eq!(limiter.remaining_traces(), 0);

    // Metrics and events still have tokens
    assert!(limiter.remaining_metrics() > 0);
    assert!(limiter.remaining_events() > 0);
}

#[test]
fn test_metrics_trace_acquire_and_reject() {
    let mut limiter = TelemetryRateLimiter::with_config(TelemetryRateLimitConfig {
        trace_limit: 2,
        ..Default::default()
    });

    assert!(limiter.try_acquire_trace());
    assert!(limiter.try_acquire_trace());
    assert!(!limiter.try_acquire_trace());

    let m = limiter.metrics();
    assert_eq!(m.traces_acquired, 2);
    assert_eq!(m.traces_rejected, 1);
}

#[test]
fn test_metrics_metric_acquire_and_reject() {
    let mut limiter = TelemetryRateLimiter::with_config(TelemetryRateLimitConfig {
        metric_limit: 1,
        ..Default::default()
    });

    assert!(limiter.try_acquire_metric());
    assert!(!limiter.try_acquire_metric());

    let m = limiter.metrics();
    assert_eq!(m.metrics_acquired, 1);
    assert_eq!(m.metrics_rejected, 1);
}

#[test]
fn test_metrics_event_acquire_and_reject() {
    let mut limiter = TelemetryRateLimiter::with_config(TelemetryRateLimitConfig {
        event_limit: 3,
        ..Default::default()
    });

    assert!(limiter.try_acquire_event());
    assert!(limiter.try_acquire_event());
    assert!(limiter.try_acquire_event());
    assert!(!limiter.try_acquire_event());

    let m = limiter.metrics();
    assert_eq!(m.events_acquired, 3);
    assert_eq!(m.events_rejected, 1);
}

#[test]
fn test_metrics_all_types_combined() {
    let mut limiter = TelemetryRateLimiter::with_config(TelemetryRateLimitConfig {
        trace_limit: 3,
        metric_limit: 2,
        event_limit: 1,
        ..Default::default()
    });

    // Traces: 3 acquired, 0 rejected
    assert!(limiter.try_acquire_trace());
    assert!(limiter.try_acquire_trace());
    assert!(limiter.try_acquire_trace());

    // Metrics: 2 acquired, 1 rejected
    assert!(limiter.try_acquire_metric());
    assert!(limiter.try_acquire_metric());
    assert!(!limiter.try_acquire_metric());

    // Events: 1 acquired, 2 rejected
    assert!(limiter.try_acquire_event());
    assert!(!limiter.try_acquire_event());
    assert!(!limiter.try_acquire_event());

    let m = limiter.metrics();
    assert_eq!(m.traces_acquired, 3);
    assert_eq!(m.traces_rejected, 0);
    assert_eq!(m.metrics_acquired, 2);
    assert_eq!(m.metrics_rejected, 1);
    assert_eq!(m.events_acquired, 1);
    assert_eq!(m.events_rejected, 2);
}

#[test]
fn test_metrics_default_all_zero() {
    let mut limiter = TelemetryRateLimiter::new();
    let m = limiter.metrics();
    assert_eq!(m.traces_acquired, 0);
    assert_eq!(m.traces_rejected, 0);
    assert_eq!(m.metrics_acquired, 0);
    assert_eq!(m.metrics_rejected, 0);
    assert_eq!(m.events_acquired, 0);
    assert_eq!(m.events_rejected, 0);
}

#[test]
fn test_reset_all_restores_all_buckets() {
    let mut limiter = TelemetryRateLimiter::with_config(TelemetryRateLimitConfig {
        trace_limit: 5,
        metric_limit: 10,
        event_limit: 3,
        ..Default::default()
    });

    // Exhaust all buckets
    for _ in 0..5 {
        limiter.try_acquire_trace();
    }
    for _ in 0..10 {
        limiter.try_acquire_metric();
    }
    for _ in 0..3 {
        limiter.try_acquire_event();
    }

    assert_eq!(limiter.remaining_traces(), 0);
    assert_eq!(limiter.remaining_metrics(), 0);
    assert_eq!(limiter.remaining_events(), 0);

    limiter.reset_all();

    assert_eq!(limiter.remaining_traces(), 5);
    assert_eq!(limiter.remaining_metrics(), 10);
    assert_eq!(limiter.remaining_events(), 3);
}

#[test]
fn test_any_exhausted_false_initially() {
    let mut limiter = TelemetryRateLimiter::new();
    assert!(!limiter.any_exhausted());
}

#[test]
fn test_any_exhausted_true_when_traces_exhausted() {
    let mut limiter = TelemetryRateLimiter::with_config(TelemetryRateLimitConfig {
        trace_limit: 1,
        ..Default::default()
    });
    limiter.try_acquire_trace();
    assert!(limiter.any_exhausted());
}

#[test]
fn test_any_exhausted_true_when_metrics_exhausted() {
    let mut limiter = TelemetryRateLimiter::with_config(TelemetryRateLimitConfig {
        metric_limit: 1,
        ..Default::default()
    });
    limiter.try_acquire_metric();
    assert!(limiter.any_exhausted());
}

#[test]
fn test_any_exhausted_true_when_events_exhausted() {
    let mut limiter = TelemetryRateLimiter::with_config(TelemetryRateLimitConfig {
        event_limit: 1,
        ..Default::default()
    });
    limiter.try_acquire_event();
    assert!(limiter.any_exhausted());
}

#[test]
fn test_any_exhausted_false_when_all_have_tokens() {
    let mut limiter = TelemetryRateLimiter::with_config(TelemetryRateLimitConfig {
        trace_limit: 5,
        metric_limit: 5,
        event_limit: 5,
        ..Default::default()
    });
    limiter.try_acquire_trace(); // 4 remain
    assert!(!limiter.any_exhausted());
}

#[test]
fn test_zero_limits_reject_everything() {
    let mut limiter = TelemetryRateLimiter::with_config(TelemetryRateLimitConfig {
        trace_limit: 0,
        metric_limit: 0,
        event_limit: 0,
        ..Default::default()
    });

    assert!(!limiter.try_acquire_trace());
    assert!(!limiter.try_acquire_metric());
    assert!(!limiter.try_acquire_event());
}

#[test]
fn test_default_trait_equals_new() {
    let a = TelemetryRateLimiter::new();
    let b = TelemetryRateLimiter::default();
    assert_eq!(a.remaining_traces(), b.remaining_traces());
    assert_eq!(a.remaining_metrics(), b.remaining_metrics());
    assert_eq!(a.remaining_events(), b.remaining_events());
}

#[test]
fn test_config_default_trait() {
    let a = TelemetryRateLimitConfig::default();
    let b = TelemetryRateLimitConfig::default();
    assert_eq!(a.trace_limit, b.trace_limit);
    assert_eq!(a.metric_limit, b.metric_limit);
    assert_eq!(a.event_limit, b.event_limit);
    assert_eq!(a.window, b.window);
}

#[test]
fn test_large_window_does_not_overflow() {
    let mut limiter = TelemetryRateLimiter::with_config(TelemetryRateLimitConfig {
        trace_limit: u32::MAX,
        window: Duration::from_secs(3600),
        ..Default::default()
    });

    // Acquire a reasonable number — should not panic or overflow
    for _ in 0..1000 {
        assert!(limiter.try_acquire_trace());
    }
}

#[test]
fn trace_window_refills_at_reading_after_window() {
    let mut limiter = TelemetryRateLimiter::with_config(TelemetryRateLimitConfig {
        trace_limit: 2,
        window: Duration::from_millis(50),
        ..Default::default()
    });
    assert!(limiter.try_acquire_trace_at(0));
    assert!(limiter.try_acquire_trace_at(10));
    assert!(!limiter.try_acquire_trace_at(49_999_999));
    assert!(limiter.try_acquire_trace_at(50_000_000), "Should reset after window");
    assert_eq!(limiter.remaining_traces_at(50_000_001), 1);
}

#[test]
fn remaining_counts_a_due_refill() {
    let mut limiter = TelemetryRateLimiter::with_config(TelemetryRateLimitConfig {
        event_limit: 3,
        window: Duration::from_secs(1),
        ..Default::default()
    });
    assert!(limiter.try_acquire_event_at(0));
    assert_eq!(limiter.remaining_events_at(999_999_999), 2);
    assert_eq!(limiter.remaining_events_at(1_000_000_000), 3);
    assert!(!limiter.any_exhausted_at(5));
}

#[test]
fn reset_keeps_counts() {
    let mut limiter = TelemetryRateLimiter::with_config(TelemetryRateLimitConfig { metric_limit: 1, ..Default::default() });
    assert!(limiter.try_acquire_metric_at(0));
    assert!(!limiter.try_acquire_metric_at(1));
    limiter.reset_all_at(2);
    assert!(limiter.try_acquire_metric_at(3));
    let m = limiter.metrics();
    assert_eq!(m.metrics_acquired, 2);
    assert_eq!(m.metrics_rejected, 1);
}

#[test]
fn metrics_default_trait_is_zero() {
    let m = TelemetryRateLimitMetrics::default();
    assert_eq!(m, TelemetryRateLimitMetrics {
        traces_acquired: 0,
        traces_rejected: 0,
        metrics_acquired: 0,
        metrics_rejected: 0,
        events_acquired: 0,
        events_rejected: 0,
    });
}
