//! How long shutdown waits for in-flight spans to be exported.
//!
//! The wait is configured by a count of seconds, given as decimal text
//! (the `OTEL_FLUSH_TIMEOUT_SECS` setting); absent or unreadable text means
//! the default.

use std::time::Duration;
use vstd::prelude::*;

use crate::clock::{duration_from_secs, duration_nanos, NANOS_PER_SEC};
use crate::text::chars_of;

verus! {

/// Default wait for in-flight spans, in seconds.
pub const DEFAULT_FLUSH_TIMEOUT_SECS: u64 = 5;

/// Whether `c` is an ASCII decimal digit.
pub open spec fn is_digit(c: char) -> bool {
    '0' <= c && c <= '9'
}

/// The number that the decimal digits `s` denote.
pub open spec fn digits_value(s: Seq<char>) -> nat
    decreases s.len(),
{
    if s.len() == 0 {
        0
    } else {
        digits_value(s.drop_last()) * 10 + ((s.last() as int) - ('0' as int)) as nat
    }
}

/// The unsigned 64-bit number that the text `s` denotes: an optional `+`
/// and then at least one decimal digit, with a value that fits; `None` for
/// any other text. This is how `u64`'s `FromStr` reads text.
pub open spec fn u64_text_value(s: Seq<char>) -> Option<u64> {
    digits_text_value(unsigned_digits(s))
}

/// The text after an optional leading `+`.
pub open spec fn unsigned_digits(s: Seq<char>) -> Seq<char> {
    if s.len() > 0 && s[0] == '+' {
        s.drop_first()
    } else {
        s
    }
}

/// The number that the text `d` denotes when it is made of at least one
/// decimal digit and the number fits in 64 bits.
pub open spec fn digits_text_value(d: Seq<char>) -> Option<u64> {
    if d.len() > 0 && (forall|i: int| 0 <= i < d.len() ==> is_digit(#[trigger] d[i])) && digits_value(d)
        <= u64::MAX {
        Some(digits_value(d) as u64)
    } else {
        None
    }
}

/// Reads `s` as an unsigned 64-bit number (see [`u64_text_value`]).
pub fn parse_u64(s: &str) -> (r: Option<u64>)
    ensures
        r == u64_text_value(s@),
{
    let cs = chars_of(s);
    let start: usize = if cs.len() > 0 && cs[0] == '+' {
        1
    } else {
        0
    };
    let ghost d = unsigned_digits(s@);
    assert(d =~= cs@.subrange(start as int, cs@.len() as int));
    if start == cs.len() {
        return None;
    }
    let mut value: u64 = 0;
    let mut overflow = false;
    let mut i: usize = start;
    while i < cs.len()
        invariant
            cs@ == s@,
            start <= i <= cs@.len(),
            d == cs@.subrange(start as int, cs@.len() as int),
            d == unsigned_digits(s@),
            forall|j: int| start <= j < i ==> is_digit(#[trigger] cs@[j]),
            !overflow ==> value == digits_value(cs@.subrange(start as int, i as int)),
            overflow ==> digits_value(cs@.subrange(start as int, i as int)) > u64::MAX,
        decreases cs@.len() - i,
    {
        let c = cs[i];
        if !('0' <= c && c <= '9') {
            assert(!is_digit(d[i - start]));
            return None;
        }
        let digit = (c as u32 - '0' as u32) as u64;
        let ghost prev = cs@.subrange(start as int, i as int);
        assert(cs@.subrange(start as int, i + 1).drop_last() =~= prev);
        if !overflow {
            match value.checked_mul(10) {
                Some(v) => match v.checked_add(digit) {
                    Some(w) => {
                        value = w;
                    },
                    None => {
                        overflow = true;
                    },
                },
                None => {
                    overflow = true;
                },
            }
        }
        i = i + 1;
    }
    assert(cs@.subrange(start as int, cs@.len() as int) == d);
    if overflow {
        None
    } else {
        Some(value)
    }
}

/// The flush wait for the configured text `setting`: its number of
/// seconds when it reads as one, else [`DEFAULT_FLUSH_TIMEOUT_SECS`].
pub fn flush_timeout_from(setting: Option<&str>) -> (d: Duration)
    ensures
        duration_nanos(d) == match setting {
            Some(s) => match u64_text_value(s@) {
                Some(n) => n as nat,
                None => DEFAULT_FLUSH_TIMEOUT_SECS as nat,
            },
            None => DEFAULT_FLUSH_TIMEOUT_SECS as nat,
        } * NANOS_PER_SEC,
{
    let secs = match setting {
        Some(s) => match parse_u64(s) {
            Some(n) => n,
            None => DEFAULT_FLUSH_TIMEOUT_SECS,
        },
        None => DEFAULT_FLUSH_TIMEOUT_SECS,
    };
    duration_from_secs(secs)
}

} // verus!
