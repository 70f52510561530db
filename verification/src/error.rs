//! Application errors produced by the library's rules.

use vstd::prelude::*;

use crate::text::{concat, owned};

verus! {

/// An error of the application, with its detail.
#[derive(Debug, Clone, PartialEq, Eq)]
pub enum AppError {
    /// A requested status change is not allowed.
    InvalidStatusTransition(String),
    /// The request is malformed.
    BadRequest(String),
    /// A record does not exist.
    NotFound(String),
    /// The database failed.
    DatabaseError(String),
    /// A settlement would have an invalid amount.
    InvalidSettlementAmount(String),
    /// An input failed validation.
    Validation(String),
    /// The request names no known tenant.
    TenantNotFound,
    /// The caller may not do this; the detail says why.
    Unauthorized(String),
    /// No valid API key or tenant identifier came with the request.
    InvalidApiKey,
}

/// The message each error displays.
pub open spec fn app_error_message(e: AppError) -> Seq<char> {
    match e {
        AppError::InvalidStatusTransition(s) => "Invalid status transition: "@ + s@,
        AppError::BadRequest(s) => "Bad request: "@ + s@,
        AppError::NotFound(s) => "Not found: "@ + s@,
        AppError::DatabaseError(s) => "Database error: "@ + s@,
        AppError::InvalidSettlementAmount(s) => "Invalid settlement amount: "@ + s@,
        AppError::Validation(s) => "Validation error: "@ + s@,
        AppError::TenantNotFound => "Tenant not found"@,
        AppError::Unauthorized(s) => "Unauthorized: "@ + s@,
        AppError::InvalidApiKey => "Invalid API key"@,
    }
}

impl AppError {
    /// The message this error displays.
    pub fn to_string(&self) -> (s: String)
        ensures
            s@ == app_error_message(*self),
    {
        match self {
            AppError::InvalidStatusTransition(d) => concat("Invalid status transition: ", d.as_str()),
            AppError::BadRequest(d) => concat("Bad request: ", d.as_str()),
            AppError::NotFound(d) => concat("Not found: ", d.as_str()),
            AppError::DatabaseError(d) => concat("Database error: ", d.as_str()),
            AppError::InvalidSettlementAmount(d) => concat("Invalid settlement amount: ", d.as_str()),
            AppError::Validation(d) => concat("Validation error: ", d.as_str()),
            AppError::TenantNotFound => owned("Tenant not found"),
            AppError::Unauthorized(d) => concat("Unauthorized: ", d.as_str()),
            AppError::InvalidApiKey => owned("Invalid API key"),
        }
    }
}

} // verus!
