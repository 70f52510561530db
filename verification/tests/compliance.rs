use chrono::{TimeZone, Utc};

use synapse_core::error::AppError;
use synapse_core::services::compliance::period_bounds;

fn at(y: i32, mo: u32, d: u32, h: u32, mi: u32, s: u32) -> i64 {
    Utc.with_ymd_and_hms(y, mo, d, h, mi, s).unwrap().timestamp_micros()
}

#[test]
fn test_daily_bounds() {
    let now = at(2026, 4, 28, 15, 30, 0);
    let (start, end) = period_bounds("daily", now).unwrap();
    assert_eq!(start, at(2026, 4, 28, 0, 0, 0));
    assert_eq!(end, at(2026, 4, 29, 0, 0, 0));
}

#[test]
fn test_weekly_bounds() {
    // 2026-04-28 is a Tuesday (days_from_monday = 1)
    let now = at(2026, 4, 28, 10, 0, 0);
    let (start, end) = period_bounds("weekly", now).unwrap();
    assert_eq!(start, at(2026, 4, 27, 0, 0, 0));
    assert_eq!(end, at(2026, 5, 4, 0, 0, 0));
}

#[test]
fn test_monthly_bounds() {
    let now = at(2026, 4, 15, 0, 0, 0);
    let (start, end) = period_bounds("monthly", now).unwrap();
    assert_eq!(start, at(2026, 4, 1, 0, 0, 0));
    assert_eq!(end, at(2026, 5, 1, 0, 0, 0));
}

#[test]
fn test_invalid_period() {
    let now = Utc::now().timestamp_micros();
    assert!(period_bounds("yearly", now).is_err());
}

#[test]
fn monthly_bounds_roll_over_the_year() {
    let now = at(2025, 12, 31, 23, 59, 59);
    let (start, end) = period_bounds("monthly", now).unwrap();
    assert_eq!(start, at(2025, 12, 1, 0, 0, 0));
    assert_eq!(end, at(2026, 1, 1, 0, 0, 0));
}

#[test]
fn weekly_bounds_on_a_monday_start_that_day() {
    let now = at(2026, 4, 27, 0, 0, 0);
    let (start, end) = period_bounds("weekly", now).unwrap();
    assert_eq!(start, now);
    assert_eq!(end, at(2026, 5, 4, 0, 0, 0));
}

#[test]
fn daily_bounds_before_the_epoch() {
    let now = at(1969, 12, 31, 18, 0, 0);
    let (start, end) = period_bounds("daily", now).unwrap();
    assert_eq!(start, at(1969, 12, 31, 0, 0, 0));
    assert_eq!(end, at(1970, 1, 1, 0, 0, 0));
}

#[test]
fn unknown_period_message() {
    assert_eq!(
        period_bounds("Daily", 0),
        Err(AppError::Validation("period must be daily, weekly, or monthly".to_string()))
    );
}

#[test]
fn unrepresentable_instant_is_out_of_range() {
    assert_eq!(
        period_bounds("daily", i64::MAX),
        Err(AppError::Validation("timestamp out of range".to_string()))
    );
}
