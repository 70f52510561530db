//! Durations and clocks.
//!
//! Durations are modelled by their length in nanoseconds. Clock readings
//! depend on when they are taken; the library's decisions take them as
//! arguments, so every decision is verified for every reading.

use std::time::{Duration, Instant, SystemTime, UNIX_EPOCH};
use vstd::prelude::*;

verus! {

/// `std::time::Instant`, a monotonic clock reading, carried as an opaque value.
#[verifier::external_type_specification]
#[verifier::external_body]
pub struct ExInstant(Instant);

/// `Duration` is `Copy`; std's `Clone` for it returns the same value.
pub assume_specification[ <Duration as Clone>::clone ](d: &Duration) -> (r: Duration)
    ensures
        r == *d,
;

/// The length of a duration, in nanoseconds.
pub uninterp spec fn duration_nanos(d: Duration) -> nat;

/// Nanoseconds in one second.
pub const NANOS_PER_SEC: u64 = 1_000_000_000;

/// Nanoseconds in one millisecond.
pub const NANOS_PER_MILLI: u64 = 1_000_000;

/// Calls `Duration::from_secs`, which std documents as a duration of
/// exactly `secs` seconds.
#[verifier::external_body]
pub(crate) fn duration_from_secs(secs: u64) -> (d: Duration)
    ensures
        duration_nanos(d) == secs * NANOS_PER_SEC,
{
    Duration::from_secs(secs)
}

/// Calls `Duration::from_millis`, which std documents as a duration of
/// exactly `millis` milliseconds.
#[verifier::external_body]
pub(crate) fn duration_from_millis(millis: u64) -> (d: Duration)
    ensures
        duration_nanos(d) == millis * NANOS_PER_MILLI,
{
    Duration::from_millis(millis)
}

/// Calls `Duration::from_nanos`, which std documents as a duration of
/// exactly `nanos` nanoseconds.
#[verifier::external_body]
pub(crate) fn duration_from_nanos(nanos: u64) -> (d: Duration)
    ensures
        duration_nanos(d) == nanos,
{
    Duration::from_nanos(nanos)
}

/// Calls `Duration::as_nanos`, which std documents as the total number of
/// whole nanoseconds in the duration.
#[verifier::external_body]
pub(crate) fn duration_as_nanos(d: &Duration) -> (n: u128)
    ensures
        n == duration_nanos(*d),
{
    d.as_nanos()
}

/// The text `{:?}` formats a duration as.
pub uninterp spec fn duration_debug_text(d: Duration) -> Seq<char>;

/// Formats `d` with its `Debug` implementation (`{:?}`).
#[verifier::external_body]
pub(crate) fn duration_debug_string(d: &Duration) -> (s: String)
    ensures
        s@ == duration_debug_text(*d),
{
    format!("{:?}", d)
}

/// Calls `Instant::now`. Nothing is promised of the reading.
#[verifier::external_body]
pub(crate) fn instant_now() -> (t: Instant) {
    Instant::now()
}

/// Calls `Instant::elapsed`. The reading depends on the clock: nothing is
/// promised of it.
#[verifier::external_body]
pub(crate) fn elapsed_since(since: &Instant) -> (d: Duration) {
    since.elapsed()
}

/// The time elapsed since `since`, in nanoseconds, saturated at
/// `u64::MAX`. The reading depends on the clock: nothing is promised of it.
pub(crate) fn elapsed_nanos(since: &Instant) -> (n: u64) {
    let d = elapsed_since(since);
    saturate_nanos(duration_as_nanos(&d))
}

/// Calls `SystemTime::now().duration_since(UNIX_EPOCH)`: the time since the
/// Unix epoch, or `None` when the system clock reads before it. The reading
/// depends on the clock: nothing is promised of it.
#[verifier::external_body]
fn since_unix_epoch() -> (d: Option<Duration>) {
    SystemTime::now().duration_since(UNIX_EPOCH).ok()
}

/// The system time in whole milliseconds since the Unix epoch, saturated at
/// `u64::MAX`, or 0 when the system clock reads before the epoch. The
/// reading depends on the clock: nothing is promised of it.
pub(crate) fn unix_time_millis() -> (ms: u64) {
    match since_unix_epoch() {
        Some(d) => saturate_nanos(duration_as_nanos(&d) / 1_000_000),
        None => 0,
    }
}

/// The system time in whole microseconds since the Unix epoch, saturated
/// at `i64::MAX`, or 0 when the system clock reads before the epoch. The
/// reading depends on the clock: nothing is promised of it.
pub(crate) fn unix_time_micros() -> (us: i64) {
    match since_unix_epoch() {
        Some(d) => {
            let micros = duration_as_nanos(&d) / 1_000;
            if micros > i64::MAX as u128 {
                i64::MAX
            } else {
                micros as i64
            }
        },
        None => 0,
    }
}

/// Converts a nanosecond count to `u64`, saturating at `u64::MAX`.
pub fn saturate_nanos(n: u128) -> (r: u64)
    ensures
        r == if n > u64::MAX { u64::MAX as int } else { n as int },
{
    if n > u64::MAX as u128 {
        u64::MAX
    } else {
        n as u64
    }
}

} // verus!

