//! Classification of database failures as transient or permanent, and the
//! decorrelated-jitter backoff used when retrying transient ones.

use rand::Rng;
use vstd::prelude::*;

use crate::text::{contains_str, has_infix, str_eq};

verus! {

/// Hard cap on any single retry delay, in milliseconds.
pub const MAX_DELAY_MS: u64 = 10000;

/// What the retry policy needs to know of a database failure.
#[derive(Debug, Clone, PartialEq, Eq)]
pub enum DbErrorKind {
    /// An I/O failure talking to the database.
    Io,
    /// No connection became free in time.
    PoolTimedOut,
    /// The pool was closed.
    PoolClosed,
    /// The query matched no row.
    RowNotFound,
    /// The server reported an error, with its SQLSTATE code when it gave one.
    Database { code: Option<String>, message: String },
    /// Any other failure.
    Other,
}

/// The SQLSTATE codes of transient failures: deadlock, serialization
/// failure, the connection exceptions, cannot-connect-now and too many
/// connections.
pub open spec fn transient_sqlstates() -> Seq<Seq<char>> {
    seq!["40P01"@, "40001"@, "08000"@, "08003"@, "08001"@, "08004"@, "08006"@, "57P03"@, "53300"@]
}

/// Whether SQLSTATE `code` marks a transient failure.
pub fn is_transient_sqlstate(code: &str) -> (r: bool)
    ensures
        r == transient_sqlstates().contains(code@),
{
    let codes: [&str; 9] = ["40P01", "40001", "08000", "08003", "08001", "08004", "08006", "57P03", "53300"];
    let mut i: usize = 0;
    while i < 9
        invariant
            i <= 9,
            codes@.map_values(|s: &str| s@) == transient_sqlstates(),
            forall|j: int| 0 <= j < i ==> codes@[j]@ != code@,
        decreases 9 - i,
    {
        if str_eq(codes[i], code) {
            proof {
                assert(transient_sqlstates()[i as int] == code@);
            }
            return true;
        }
        i = i + 1;
    }
    proof {
        if transient_sqlstates().contains(code@) {
            let j = choose|j: int| 0 <= j < 9 && transient_sqlstates()[j] == code@;
            assert(codes@[j]@ == code@);
        }
    }
    false
}

/// The lowercase form of a text, as `str::to_lowercase` maps it.
pub uninterp spec fn lowercase(s: Seq<char>) -> Seq<char>;

/// Calls `str::to_lowercase`; the result is named [`lowercase`].
#[verifier::external_body]
pub(crate) fn to_lowercase(s: &str) -> (r: String)
    ensures
        r@ == lowercase(s@),
{
    s.to_lowercase()
}

/// A lowercase message names a transient failure.
pub open spec fn transient_phrase(lowered: Seq<char>) -> bool {
    ||| has_infix(lowered, "deadlock detected"@)
    ||| has_infix(lowered, "serialization failure"@)
    ||| has_infix(lowered, "connection reset"@)
    ||| has_infix(lowered, "could not connect"@)
}

/// Whether an already lowercase message names a transient failure.
pub fn message_names_transient(lowered: &str) -> (r: bool)
    ensures
        r == transient_phrase(lowered@),
{
    contains_str(lowered, "deadlock detected") || contains_str(lowered, "serialization failure")
        || contains_str(lowered, "connection reset") || contains_str(lowered, "could not connect")
}

/// Whether a server message names a transient failure, compared in
/// lowercase. Only consulted when the server gave no SQLSTATE code.
pub fn is_transient_by_message(message: &str) -> (r: bool)
    ensures
        r == transient_phrase(lowercase(message@)),
{
    let lowered = to_lowercase(message);
    message_names_transient(lowered.as_str())
}

/// The text of an optional string.
pub open spec fn code_view(code: Option<String>) -> Option<Seq<char>> {
    match code {
        Some(c) => Some(c@),
        None => None,
    }
}

/// Whether a failure is transient: I/O failures and pool timeouts are; a
/// server error is when its SQLSTATE code is transient or, lacking a code,
/// when its message says so; nothing else is.
pub open spec fn transient(e: DbErrorKind) -> bool {
    match e {
        DbErrorKind::Io => true,
        DbErrorKind::PoolTimedOut => true,
        DbErrorKind::Database { code, message } => match code_view(code) {
            Some(c) => transient_sqlstates().contains(c),
            None => transient_phrase(lowercase(message@)),
        },
        _ => false,
    }
}

/// A server error that carries a SQLSTATE code is transient exactly when
/// the code is one of deadlock (`40P01`), serialization failure (`40001`),
/// the connection exceptions (`08000`, `08003`, `08001`, `08004`, `08006`),
/// cannot-connect-now (`57P03`) or too-many-connections (`53300`); its
/// message is then not consulted.
pub proof fn lemma_sqlstate_decides(c: String, message: String)
    ensures
        transient(DbErrorKind::Database { code: Some(c), message }) <==> (c@ == "40P01"@ || c@ == "40001"@
            || c@ == "08000"@ || c@ == "08003"@ || c@ == "08001"@ || c@ == "08004"@ || c@ == "08006"@
            || c@ == "57P03"@ || c@ == "53300"@),
{
    reveal_strlit("40P01");
    reveal_strlit("40001");
    reveal_strlit("08000");
    reveal_strlit("08003");
    reveal_strlit("08001");
    reveal_strlit("08004");
    reveal_strlit("08006");
    reveal_strlit("57P03");
    reveal_strlit("53300");
    let l = transient_sqlstates();
    if l.contains(c@) {
        let j = choose|j: int| 0 <= j < l.len() && l[j] == c@;
        assert(l[j] == c@);
    } else {
        assert(l[0] == "40P01"@);
        assert(l[8] == "53300"@);
    }
}

/// Two server errors with the same SQLSTATE code are classified alike,
/// whatever their messages.
pub proof fn lemma_code_outranks_message(c: String, m1: String, m2: String)
    ensures
        transient(DbErrorKind::Database { code: Some(c), message: m1 }) == transient(
            DbErrorKind::Database { code: Some(c), message: m2 },
        ),
{
}

/// I/O failures and pool timeouts are always retried; a closed pool, a
/// missing row and any other failure never are.
pub proof fn lemma_fixed_kinds()
    ensures
        transient(DbErrorKind::Io),
        transient(DbErrorKind::PoolTimedOut),
        !transient(DbErrorKind::PoolClosed),
        !transient(DbErrorKind::RowNotFound),
        !transient(DbErrorKind::Other),
{
}

/// Whether a database failure is worth retrying (see [`transient`]).
pub fn is_transient_db_error(err: &DbErrorKind) -> (r: bool)
    ensures
        r == transient(*err),
        *err is Io || *err is PoolTimedOut ==> r,
        *err is PoolClosed || *err is RowNotFound || *err is Other ==> !r,
        err matches DbErrorKind::Database { code: Some(c), .. } ==> (r <==> (c@ == "40P01"@ || c@ == "40001"@
            || c@ == "08000"@ || c@ == "08003"@ || c@ == "08001"@ || c@ == "08004"@ || c@ == "08006"@
            || c@ == "57P03"@ || c@ == "53300"@)),
{
    match err {
        DbErrorKind::Io => true,
        DbErrorKind::PoolTimedOut => true,
        DbErrorKind::Database { code, message } => match code {
            Some(c) => is_transient_sqlstate(c.as_str()),
            None => is_transient_by_message(message.as_str()),
        },
        _ => false,
    }
}

/// The upper end of the next jitter draw: three times the previous delay
/// (saturating), but never below the base.
pub open spec fn jitter_upper(prev_delay_ms: u64, base_delay_ms: u64) -> u64 {
    let tripled = if prev_delay_ms * 3 > u64::MAX { u64::MAX } else { (prev_delay_ms * 3) as u64 };
    if tripled >= base_delay_ms { tripled } else { base_delay_ms }
}

/// Draws uniformly from `lo..=hi` with the thread's random generator.
/// Only the range is promised.
#[verifier::external_body]
fn random_between(lo: u64, hi: u64) -> (r: u64)
    requires
        lo <= hi,
    ensures
        lo <= r <= hi,
{
    rand::thread_rng().gen_range(lo..=hi)
}

/// The delay to use given a draw from the jitter range: the draw, capped.
pub fn capped_delay(draw: u64, cap_ms: u64) -> (d: u64)
    ensures
        d == if draw <= cap_ms { draw } else { cap_ms },
{
    if draw <= cap_ms {
        draw
    } else {
        cap_ms
    }
}

/// The next decorrelated-jitter delay: a random draw between the base and
/// [`jitter_upper`], capped at `cap_ms`.
pub fn decorrelated_jitter_delay_ms(prev_delay_ms: u64, base_delay_ms: u64, cap_ms: u64) -> (d: u64)
    ensures
        d <= cap_ms,
        d >= if base_delay_ms <= cap_ms { base_delay_ms } else { cap_ms },
        d <= jitter_upper(prev_delay_ms, base_delay_ms),
{
    let tripled = if prev_delay_ms <= u64::MAX / 3 {
        prev_delay_ms * 3
    } else {
        u64::MAX
    };
    let upper = if tripled >= base_delay_ms {
        tripled
    } else {
        base_delay_ms
    };
    let draw = random_between(base_delay_ms, upper);
    capped_delay(draw, cap_ms)
}

/// What the retry loop does after a failed attempt.
#[derive(Debug, Clone, Copy, PartialEq, Eq, Structural)]
pub enum RetryStep {
    /// Wait, then make attempt number `attempt` (counting retries from 1).
    Retry { attempt: u32 },
    /// Give up and return the failure.
    GiveUp,
}

/// After `attempt` retries out of `max_retries`, a failure is retried when
/// it is transient and retries remain; otherwise the loop gives up.
pub fn after_failure(attempt: u32, max_retries: u32, transient_failure: bool) -> (s: RetryStep)
    ensures
        (attempt < max_retries && transient_failure) ==> s == (RetryStep::Retry { attempt: (attempt + 1) as u32 }),
        !(attempt < max_retries && transient_failure) ==> s == RetryStep::GiveUp,
{
    if attempt < max_retries && transient_failure {
        RetryStep::Retry { attempt: attempt + 1 }
    } else {
        RetryStep::GiveUp
    }
}

/// A kind label for a lowercase message without a SQLSTATE code.
pub open spec fn message_kind(lowered: Seq<char>) -> Seq<char> {
    if has_infix(lowered, "deadlock"@) {
        "deadlock"@
    } else if has_infix(lowered, "serialization"@) {
        "serialization_failure"@
    } else if has_infix(lowered, "connection reset"@) || has_infix(lowered, "could not connect"@) {
        "connection_reset"@
    } else {
        "database"@
    }
}

/// The kind label of a failure, as reported in retry metrics.
pub open spec fn error_kind(e: DbErrorKind) -> Seq<char> {
    match e {
        DbErrorKind::Io => "io"@,
        DbErrorKind::PoolTimedOut => "pool_timeout"@,
        DbErrorKind::Database { code, message } => {
            let c = code_view(code);
            if c == Some("40P01"@) {
                "deadlock"@
            } else if c == Some("40001"@) {
                "serialization_failure"@
            } else if c == Some("08000"@) || c == Some("08003"@) || c == Some("08001"@) || c == Some(
                "08004"@,
            ) || c == Some("08006"@) || c == Some("57P03"@) {
                "connection_reset"@
            } else if c == Some("53300"@) {
                "too_many_connections"@
            } else {
                message_kind(lowercase(message@))
            }
        },
        _ => "other"@,
    }
}

fn kind_of_message(message: &str) -> (k: &'static str)
    ensures
        k@ == message_kind(lowercase(message@)),
{
    let lowered = to_lowercase(message);
    let m = lowered.as_str();
    if contains_str(m, "deadlock") {
        "deadlock"
    } else if contains_str(m, "serialization") {
        "serialization_failure"
    } else if contains_str(m, "connection reset") || contains_str(m, "could not connect") {
        "connection_reset"
    } else {
        "database"
    }
}

fn code_is(code: &Option<String>, expected: &str) -> (r: bool)
    ensures
        r == (code_view(*code) == Some(expected@)),
{
    match code {
        Some(c) => str_eq(c.as_str(), expected),
        None => false,
    }
}

/// The kind label of a failure (see [`error_kind`]).
pub fn classify_error_kind(err: &DbErrorKind) -> (k: &'static str)
    ensures
        k@ == error_kind(*err),
{
    match err {
        DbErrorKind::Io => "io",
        DbErrorKind::PoolTimedOut => "pool_timeout",
        DbErrorKind::Database { code, message } => {
            if code_is(code, "40P01") {
                "deadlock"
            } else if code_is(code, "40001") {
                "serialization_failure"
            } else if code_is(code, "08000") || code_is(code, "08003") || code_is(code, "08001") || code_is(
                code,
                "08004",
            ) || code_is(code, "08006") || code_is(code, "57P03") {
                "connection_reset"
            } else if code_is(code, "53300") {
                "too_many_connections"
            } else {
                kind_of_message(message.as_str())
            }
        },
        _ => "other",
    }
}

} // verus!
