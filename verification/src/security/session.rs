//! Validation of session parameters and of stored sessions.

use uuid::Uuid;
use vstd::prelude::*;

use crate::clock::unix_time_micros;

verus! {

/// Longest accepted session lifetime, in seconds (24 h).
pub const MAX_SESSION_TTL_SECS: i64 = 86_400;

/// Longest accepted user identifier, in bytes.
pub const MAX_USER_ID_LEN: usize = 128;

/// Errors that can occur during session validation.
#[derive(Debug, Clone, Copy, PartialEq, Eq, Structural)]
pub enum SessionValidationError {
    /// User ID is empty.
    EmptyUserId,
    /// User ID exceeds the maximum length (128 bytes).
    UserIdTooLong,
    /// TTL is not between 1 and 86400 seconds.
    InvalidTtl,
    /// The session has expired.
    Expired,
    /// The session has been revoked.
    Inactive,
}

/// The message each error displays.
pub open spec fn session_error_message(e: SessionValidationError) -> Seq<char> {
    match e {
        SessionValidationError::EmptyUserId => "User ID is empty"@,
        SessionValidationError::UserIdTooLong => "User ID exceeds maximum length"@,
        SessionValidationError::InvalidTtl => "TTL must be between 1 and 86400 seconds"@,
        SessionValidationError::Expired => "Session has expired"@,
        SessionValidationError::Inactive => "Session is inactive"@,
    }
}

impl SessionValidationError {
    /// The human-readable message of this error.
    pub fn to_string(&self) -> (s: String)
        ensures
            s@ == session_error_message(*self),
    {
        match self {
            SessionValidationError::EmptyUserId => "User ID is empty".to_owned(),
            SessionValidationError::UserIdTooLong => "User ID exceeds maximum length".to_owned(),
            SessionValidationError::InvalidTtl => "TTL must be between 1 and 86400 seconds".to_owned(),
            SessionValidationError::Expired => "Session has expired".to_owned(),
            SessionValidationError::Inactive => "Session is inactive".to_owned(),
        }
    }
}

/// The outcome the session-parameter check owes for `user_id` (by its UTF-8
/// length and content) and `ttl_seconds`: the first violated rule, in the
/// order empty id, overlong id, TTL out of `1..=86400`.
pub open spec fn session_params_outcome(user_id: &str, ttl_seconds: i64) -> Result<
    (),
    SessionValidationError,
> {
    if user_id@.len() == 0 {
        Err(SessionValidationError::EmptyUserId)
    } else if user_id.len() > MAX_USER_ID_LEN {
        Err(SessionValidationError::UserIdTooLong)
    } else if !(1 <= ttl_seconds <= MAX_SESSION_TTL_SECS) {
        Err(SessionValidationError::InvalidTtl)
    } else {
        Ok(())
    }
}

/// Validates input parameters before creating a new session: the user id
/// must be non-empty and at most 128 bytes, the TTL between 1 and 86400
/// seconds.
pub fn validate_session_params(user_id: &str, ttl_seconds: i64) -> (r: Result<
    (),
    SessionValidationError,
>)
    ensures
        r == session_params_outcome(user_id, ttl_seconds),
{
    if user_id.is_empty() {
        return Err(SessionValidationError::EmptyUserId);
    }
    if user_id.len() > MAX_USER_ID_LEN {
        return Err(SessionValidationError::UserIdTooLong);
    }
    if !(1 <= ttl_seconds && ttl_seconds <= MAX_SESSION_TTL_SECS) {
        return Err(SessionValidationError::InvalidTtl);
    }
    Ok(())
}

/// Decides a session's validity: a revoked session is `Inactive`; a session
/// whose expiry (`expires_at`) is at or before `now` is `Expired`. Both
/// times are on one clock.
pub fn session_status(is_active: bool, expires_at: i64, now: i64) -> (r: Result<
    (),
    SessionValidationError,
>)
    ensures
        r == (if !is_active {
            Err(SessionValidationError::Inactive)
        } else if expires_at <= now {
            Err(SessionValidationError::Expired)
        } else {
            Ok(())
        }),
{
    if !is_active {
        return Err(SessionValidationError::Inactive);
    }
    if expires_at <= now {
        return Err(SessionValidationError::Expired);
    }
    Ok(())
}

/// A stored session. `expires_at` is in microseconds since the epoch.
#[derive(Debug)]
pub struct SessionRecord {
    pub id: Uuid,
    pub user_id: String,
    pub expires_at: i64,
    pub is_active: bool,
}

/// Checks a stored session against the clock: a revoked session is
/// `Inactive`; an active one is `Expired` once its expiry is not after the
/// current time, and valid before.
pub fn validate_session(session: &SessionRecord) -> (r: Result<(), SessionValidationError>)
    ensures
        !session.is_active ==> r == Err::<(), SessionValidationError>(SessionValidationError::Inactive),
        session.is_active ==> (r is Ok || r == Err::<(), SessionValidationError>(
            SessionValidationError::Expired,
        )),
        exists|now: i64| r == #[trigger] session_status_of(session.is_active, session.expires_at, now),
{
    let now = unix_time_micros();
    let r = session_status(session.is_active, session.expires_at, now);
    assert(r == session_status_of(session.is_active, session.expires_at, now));
    r
}

/// The status [`session_status`] gives.
pub open spec fn session_status_of(is_active: bool, expires_at: i64, now: i64) -> Result<(), SessionValidationError> {
    if !is_active {
        Err(SessionValidationError::Inactive)
    } else if expires_at <= now {
        Err(SessionValidationError::Expired)
    } else {
        Ok(())
    }
}

} // verus!
