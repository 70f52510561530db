//! Compliance reporting periods: the calendar window that a daily, weekly or
//! monthly report covers.
//!
//! Instants are microseconds since the Unix epoch, UTC. A window is
//! half-open: it contains its start and not its end.

use vstd::prelude::*;

use crate::calendar::{civil_date, civil_date_of, civil_midnight, civil_midnight_of, MICROS_PER_DAY};
use crate::error::AppError;
use crate::text::{owned, str_eq};

verus! {

/// The message of a refused period name.
pub open spec fn unknown_period_message() -> Seq<char> {
    "period must be daily, weekly, or monthly"@
}

/// The message given when the window cannot be represented.
pub open spec fn out_of_range_message() -> Seq<char> {
    "timestamp out of range"@
}

/// Whether `period` names a reporting period.
pub open spec fn is_known_period(period: Seq<char>) -> bool {
    period == "daily"@ || period == "weekly"@ || period == "monthly"@
}

/// The window `(start, end)` when both ends are representable instants.
pub open spec fn representable(start: int, end: int) -> Option<(int, int)> {
    if i64::MIN <= start <= i64::MAX && i64::MIN <= end <= i64::MAX {
        Some((start, end))
    } else {
        None
    }
}

/// The calendar day that contains `now`.
pub open spec fn day_window(now: i64) -> Option<(int, int)> {
    match civil_date(now) {
        Some((y, m, d, _)) => match civil_midnight(y, m, d) {
            Some(s) => representable(s as int, s + MICROS_PER_DAY),
            None => None,
        },
        None => None,
    }
}

/// The week, Monday to Sunday, that contains `now`.
pub open spec fn week_window(now: i64) -> Option<(int, int)> {
    match civil_date(now) {
        Some((_, _, _, w)) => {
            let monday = now - w * MICROS_PER_DAY;
            if i64::MIN <= monday {
                match civil_date(monday as i64) {
                    Some((y, m, d, _)) => match civil_midnight(y, m, d) {
                        Some(s) => representable(s as int, s + 7 * MICROS_PER_DAY),
                        None => None,
                    },
                    None => None,
                }
            } else {
                None
            }
        },
        None => None,
    }
}

/// The year and month that follow month `m` of year `y`.
pub open spec fn next_month(y: i32, m: u32) -> (int, int) {
    if m == 12 {
        (y + 1, 1)
    } else {
        (y as int, m + 1)
    }
}

/// The calendar month that contains `now`.
pub open spec fn month_window(now: i64) -> Option<(int, int)> {
    match civil_date(now) {
        Some((y, m, _, _)) => {
            let (ny, nm) = next_month(y, m);
            if ny <= i32::MAX {
                match (civil_midnight(y, m, 1), civil_midnight(ny as i32, nm as u32, 1)) {
                    (Some(s), Some(n)) => Some((s as int, n as int)),
                    _ => None,
                }
            } else {
                None
            }
        },
        None => None,
    }
}

/// The window of the reporting period `period` that contains `now`.
pub open spec fn period_window(period: Seq<char>, now: i64) -> Option<(int, int)> {
    if period == "daily"@ {
        day_window(now)
    } else if period == "weekly"@ {
        week_window(now)
    } else {
        month_window(now)
    }
}

fn out_of_range() -> (r: Result<(i64, i64), AppError>)
    ensures
        r matches Err(AppError::Validation(m)) && m@ == out_of_range_message(),
{
    Err(AppError::Validation(owned("timestamp out of range")))
}

fn day_bounds(now: i64) -> (r: Result<(i64, i64), AppError>)
    ensures
        match day_window(now) {
            Some((s, e)) => r matches Ok((a, b)) && a == s && b == e,
            None => r matches Err(AppError::Validation(m)) && m@ == out_of_range_message(),
        },
{
    match civil_date_of(now) {
        Some((y, m, d, _)) => match civil_midnight_of(y, m, d) {
            Some(s) => match s.checked_add(MICROS_PER_DAY) {
                Some(e) => Ok((s, e)),
                None => out_of_range(),
            },
            None => out_of_range(),
        },
        None => out_of_range(),
    }
}

fn week_bounds(now: i64) -> (r: Result<(i64, i64), AppError>)
    ensures
        match week_window(now) {
            Some((s, e)) => r matches Ok((a, b)) && a == s && b == e,
            None => r matches Err(AppError::Validation(m)) && m@ == out_of_range_message(),
        },
{
    match civil_date_of(now) {
        Some((_, _, _, w)) => {
            let back = (w as i64) * MICROS_PER_DAY;
            match now.checked_sub(back) {
                Some(monday) => match civil_date_of(monday) {
                    Some((y, m, d, _)) => match civil_midnight_of(y, m, d) {
                        Some(s) => match s.checked_add(7 * MICROS_PER_DAY) {
                            Some(e) => Ok((s, e)),
                            None => out_of_range(),
                        },
                        None => out_of_range(),
                    },
                    None => out_of_range(),
                },
                None => out_of_range(),
            }
        },
        None => out_of_range(),
    }
}

fn month_bounds(now: i64) -> (r: Result<(i64, i64), AppError>)
    ensures
        match month_window(now) {
            Some((s, e)) => r matches Ok((a, b)) && a == s && b == e,
            None => r matches Err(AppError::Validation(m)) && m@ == out_of_range_message(),
        },
{
    match civil_date_of(now) {
        Some((y, m, _, _)) => {
            let (ny, nm): (Option<i32>, u32) = if m == 12 {
                (y.checked_add(1), 1)
            } else {
                (Some(y), m + 1)
            };
            match ny {
                Some(ny) => match (civil_midnight_of(y, m, 1), civil_midnight_of(ny, nm, 1)) {
                    (Some(s), Some(n)) => Ok((s, n)),
                    _ => out_of_range(),
                },
                None => out_of_range(),
            }
        },
        None => out_of_range(),
    }
}

/// The window `(start, end)` of the reporting period named `period`
/// ("daily", "weekly" or "monthly") that contains the instant `now`: the
/// UTC day, the week starting on Monday, or the calendar month. Any other
/// name is a validation error; so is a window whose ends cannot be
/// represented.
pub fn period_bounds(period: &str, now: i64) -> (r: Result<(i64, i64), AppError>)
    ensures
        !is_known_period(period@) ==> (r matches Err(AppError::Validation(m)) && m@
            == unknown_period_message()),
        is_known_period(period@) ==> match period_window(period@, now) {
            Some((s, e)) => r matches Ok((a, b)) && a == s && b == e,
            None => r matches Err(AppError::Validation(m)) && m@ == out_of_range_message(),
        },
{
    if str_eq(period, "daily") {
        day_bounds(now)
    } else if str_eq(period, "weekly") {
        week_bounds(now)
    } else if str_eq(period, "monthly") {
        month_bounds(now)
    } else {
        Err(AppError::Validation(owned("period must be daily, weekly, or monthly")))
    }
}

} // verus!
