//! Utilities: the retry policy for database failures, listing cursors,
//! and masking of sensitive fields in logged payloads.

pub mod cursor;
pub mod retry;
pub mod sanitize;
