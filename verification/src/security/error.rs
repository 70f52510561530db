//! The error type of the security module.
//!
//! | Variant | HTTP | Stable code |
//! |---------|------|-------------|
//! | `RateLimitExceeded` | 429 | `ERR_SECURITY_001` |
//! | `SessionValidation` | 400 | `ERR_SECURITY_002` |

use vstd::prelude::*;

use crate::security::session::{session_error_message, SessionValidationError};

verus! {

/// Errors produced by security checks (rate limiting and session validation).
#[derive(Debug, Clone, Copy, PartialEq, Eq, Structural)]
pub enum SecurityError {
    /// The caller has exceeded the allowed request rate (HTTP 429).
    RateLimitExceeded,
    /// A session parameter or record failed validation (HTTP 400).
    SessionValidation(SessionValidationError),
}

/// The message each error displays.
pub open spec fn security_error_message(e: SecurityError) -> Seq<char> {
    match e {
        SecurityError::RateLimitExceeded => "Rate limit exceeded"@,
        SecurityError::SessionValidation(inner) => "Session validation failed: "@
            + session_error_message(inner),
    }
}

impl SecurityError {
    /// HTTP status code for this error.
    pub fn status_code(&self) -> (code: u16)
        ensures
            code == (match self {
                SecurityError::RateLimitExceeded => 429u16,
                SecurityError::SessionValidation(_) => 400u16,
            }),
    {
        match self {
            SecurityError::RateLimitExceeded => 429,
            SecurityError::SessionValidation(_) => 400,
        }
    }

    /// Stable error code for programmatic handling.
    pub fn code(&self) -> (code: &'static str)
        ensures
            code@ == (match self {
                SecurityError::RateLimitExceeded => "ERR_SECURITY_001"@,
                SecurityError::SessionValidation(_) => "ERR_SECURITY_002"@,
            }),
    {
        match self {
            SecurityError::RateLimitExceeded => "ERR_SECURITY_001",
            SecurityError::SessionValidation(_) => "ERR_SECURITY_002",
        }
    }

    /// The human-readable message of this error.
    pub fn to_string(&self) -> (s: String)
        ensures
            s@ == security_error_message(*self),
    {
        match self {
            SecurityError::RateLimitExceeded => "Rate limit exceeded".to_owned(),
            SecurityError::SessionValidation(inner) => {
                let mut s = "Session validation failed: ".to_owned();
                let m = inner.to_string();
                s.append(m.as_str());
                s
            },
        }
    }
}

impl From<SessionValidationError> for SecurityError {
    fn from(e: SessionValidationError) -> (r: Self) {
        SecurityError::SessionValidation(e)
    }
}

impl vstd::std_specs::convert::FromSpecImpl<SessionValidationError> for SecurityError {
    open spec fn obeys_from_spec() -> bool {
        true
    }

    open spec fn from_spec(e: SessionValidationError) -> SecurityError {
        SecurityError::SessionValidation(e)
    }
}

} // verus!
