//! The UTC calendar, read through `chrono`.
//!
//! Instants are held as microseconds since the Unix epoch. What the calendar
//! says of an instant (its year, month, day and weekday) and where a calendar
//! day begins are named results of `chrono`'s calendar arithmetic.

use chrono::{DateTime, Datelike, NaiveDate, Utc};
use vstd::prelude::*;

verus! {

/// Microseconds in one day.
pub const MICROS_PER_DAY: i64 = 86_400_000_000;

/// The UTC calendar date of the instant `micros`: its year, month (1 to
/// 12), day of the month (1 to 31) and the number of days since the Monday
/// of its week (0 to 6); `None` where the instant lies outside the range of
/// dates that `chrono` represents.
pub uninterp spec fn civil_date(micros: i64) -> Option<(i32, u32, u32, u32)>;

/// The instant, in microseconds, at which the UTC calendar day
/// `year`-`month`-`day` begins; `None` where no such date exists.
pub uninterp spec fn civil_midnight(year: i32, month: u32, day: u32) -> Option<i64>;

/// Reads the UTC calendar date of `micros` through
/// `DateTime::from_timestamp_micros` and `date_naive`. `chrono` documents
/// months as 1 to 12, days as 1 to 31 and `num_days_from_monday` as 0 to
/// 6; the result is named [`civil_date`].
#[verifier::external_body]
pub(crate) fn civil_date_of(micros: i64) -> (r: Option<(i32, u32, u32, u32)>)
    ensures
        r == civil_date(micros),
        r matches Some((y, m, d, w)) ==> 1 <= m <= 12 && 1 <= d <= 31 && w < 7,
{
    match DateTime::from_timestamp_micros(micros) {
        Some(t) => {
            let d = t.date_naive();
            Some((d.year(), d.month(), d.day(), d.weekday().num_days_from_monday()))
        },
        None => None,
    }
}

/// Builds the date through `NaiveDate::from_ymd_opt` and reads the start of
/// that day through `and_hms_opt(0, 0, 0)`, `and_utc` and
/// `timestamp_micros`; the result is named [`civil_midnight`].
#[verifier::external_body]
pub(crate) fn civil_midnight_of(year: i32, month: u32, day: u32) -> (r: Option<i64>)
    ensures
        r == civil_midnight(year, month, day),
{
    match NaiveDate::from_ymd_opt(year, month, day) {
        Some(d) => match d.and_hms_opt(0, 0, 0) {
            Some(t) => Some(t.and_utc().timestamp_micros()),
            None => None,
        },
        None => None,
    }
}

/// The instant that the text `s` denotes, as seconds since the epoch and
/// nanoseconds within the second; `None` where `chrono` does not read `s`
/// as a date and time.
pub uninterp spec fn parsed_instant(s: Seq<char>) -> Option<(i64, u32)>;

/// Reads `s` through `FromStr` for `DateTime<Utc>` and takes `timestamp`
/// and `timestamp_subsec_nanos` of the result; the result is named
/// [`parsed_instant`].
#[verifier::external_body]
pub(crate) fn parse_instant(s: &str) -> (r: Option<(i64, u32)>)
    ensures
        r == parsed_instant(s@),
{
    match s.parse::<DateTime<Utc>>() {
        Ok(t) => Some((t.timestamp(), t.timestamp_subsec_nanos())),
        Err(_) => None,
    }
}

/// The RFC 3339 text of the instant `micros`, as `chrono` writes it for a
/// UTC time (offset `+00:00`); `None` where the instant lies outside the
/// range of dates that `chrono` represents.
pub uninterp spec fn rfc3339_of(micros: i64) -> Option<Seq<char>>;

/// Writes the instant through `DateTime::from_timestamp_micros` and
/// `to_rfc3339`; the result is named [`rfc3339_of`].
#[verifier::external_body]
pub(crate) fn rfc3339_text(micros: i64) -> (r: Option<String>)
    ensures
        match r {
            Some(s) => rfc3339_of(micros) == Some(s@),
            None => rfc3339_of(micros) is None,
        },
{
    match DateTime::from_timestamp_micros(micros) {
        Some(t) => Some(t.to_rfc3339()),
        None => None,
    }
}

/// What reading `s` as an RFC 3339 date and time gives: the instant in
/// microseconds since the epoch (finer digits dropped), or the text of
/// `chrono`'s parse error.
pub uninterp spec fn rfc3339_reading(s: Seq<char>) -> Result<i64, Seq<char>>;

/// Reads `s` through `DateTime::parse_from_rfc3339`, takes the instant in
/// UTC and its `timestamp_micros`; an error is written with its `Display`.
/// The result is named [`rfc3339_reading`].
#[verifier::external_body]
pub(crate) fn parse_rfc3339(s: &str) -> (r: Result<i64, String>)
    ensures
        match r {
            Ok(t) => rfc3339_reading(s@) == Ok::<i64, Seq<char>>(t),
            Err(e) => rfc3339_reading(s@) == Err::<i64, Seq<char>>(e@),
        },
{
    match DateTime::parse_from_rfc3339(s) {
        Ok(t) => Ok(t.with_timezone(&Utc).timestamp_micros()),
        Err(e) => Err(e.to_string()),
    }
}

} // verus!
