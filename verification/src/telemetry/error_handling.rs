//! Error types and the error-recovery policy for telemetry operations.

use std::time::Duration;
use vstd::prelude::*;

use crate::clock::{duration_debug_string, duration_debug_text};
use crate::telemetry::input_validation::{validation_error_message, ValidationError};
use crate::text::{concat, decimal, decimal_string};

verus! {

/// Error type for all telemetry operations.
#[derive(Debug)]
pub enum TelemetryError {
    /// Error initializing the tracer provider.
    InitializationError(String),
    /// Error configuring the OTLP exporter.
    ExporterConfigError(String),
    /// Error during span export.
    ExportError(String),
    /// Error during tracer shutdown.
    ShutdownError(String),
    /// Invalid endpoint configuration.
    InvalidEndpoint(String),
    /// Connection error to the telemetry backend.
    ConnectionError(String),
    /// Validation error for telemetry input.
    ValidationError(ValidationError),
    /// All connections of the pool (of the given size) are in use.
    PoolExhausted(usize),
    /// Invalid pool configuration.
    PoolConfigError(String),
    /// Circuit breaker is open after too many consecutive failures.
    CircuitBreakerOpen,
    /// The operation exceeded its timeout.
    Timeout(Duration),
    /// A payload exceeds the maximum size (in bytes).
    PayloadTooLarge(usize),
    /// The export buffer overflowed and records were dropped.
    BufferOverflow,
}

/// Result type for telemetry operations.
pub type TelemetryResult<T> = Result<T, TelemetryError>;

/// The message each error displays.
pub open spec fn telemetry_error_message(e: TelemetryError) -> Seq<char> {
    match e {
        TelemetryError::InitializationError(s) => "Failed to initialize tracer: "@ + s@,
        TelemetryError::ExporterConfigError(s) => "Failed to configure OTLP exporter: "@ + s@,
        TelemetryError::ExportError(s) => "Failed to export spans: "@ + s@,
        TelemetryError::ShutdownError(s) => "Failed to shutdown tracer: "@ + s@,
        TelemetryError::InvalidEndpoint(s) => "Invalid endpoint: "@ + s@,
        TelemetryError::ConnectionError(s) => "Connection error: "@ + s@,
        TelemetryError::ValidationError(v) => "Validation error: "@ + validation_error_message(v@),
        TelemetryError::PoolExhausted(n) => "Connection pool exhausted: all "@ + decimal(n as nat)
            + " connections in use"@,
        TelemetryError::PoolConfigError(s) => "Invalid pool configuration: "@ + s@,
        TelemetryError::CircuitBreakerOpen => "Circuit breaker open: too many consecutive failures"@,
        TelemetryError::Timeout(d) => "Operation timed out after "@ + duration_debug_text(d),
        TelemetryError::PayloadTooLarge(n) => "Payload exceeds maximum size of "@ + decimal(n as nat)
            + " bytes"@,
        TelemetryError::BufferOverflow => "Export buffer overflow: oldest records dropped"@,
    }
}

impl TelemetryError {
    /// The human-readable message of this error.
    pub fn to_string(&self) -> (s: String)
        ensures
            s@ == telemetry_error_message(*self),
    {
        match self {
            TelemetryError::InitializationError(d) => concat("Failed to initialize tracer: ", d.as_str()),
            TelemetryError::ExporterConfigError(d) => concat("Failed to configure OTLP exporter: ", d.as_str()),
            TelemetryError::ExportError(d) => concat("Failed to export spans: ", d.as_str()),
            TelemetryError::ShutdownError(d) => concat("Failed to shutdown tracer: ", d.as_str()),
            TelemetryError::InvalidEndpoint(d) => concat("Invalid endpoint: ", d.as_str()),
            TelemetryError::ConnectionError(d) => concat("Connection error: ", d.as_str()),
            TelemetryError::ValidationError(v) => {
                let m = v.to_string();
                concat("Validation error: ", m.as_str())
            },
            TelemetryError::PoolExhausted(n) => {
                let mut s = concat("Connection pool exhausted: all ", decimal_string(*n as u64).as_str());
                s.append(" connections in use");
                s
            },
            TelemetryError::PoolConfigError(d) => concat("Invalid pool configuration: ", d.as_str()),
            TelemetryError::CircuitBreakerOpen => "Circuit breaker open: too many consecutive failures".to_owned(),
            TelemetryError::Timeout(d) => {
                let t = duration_debug_string(d);
                concat("Operation timed out after ", t.as_str())
            },
            TelemetryError::PayloadTooLarge(n) => {
                let mut s = concat("Payload exceeds maximum size of ", decimal_string(*n as u64).as_str());
                s.append(" bytes");
                s
            },
            TelemetryError::BufferOverflow => "Export buffer overflow: oldest records dropped".to_owned(),
        }
    }
}

impl From<ValidationError> for TelemetryError {
    fn from(e: ValidationError) -> (r: Self) {
        TelemetryError::ValidationError(e)
    }
}

impl vstd::std_specs::convert::FromSpecImpl<ValidationError> for TelemetryError {
    open spec fn obeys_from_spec() -> bool {
        true
    }

    open spec fn from_spec(e: ValidationError) -> TelemetryError {
        TelemetryError::ValidationError(e)
    }
}

/// Action to take after handling a telemetry error.
#[derive(Debug, Clone, Copy, PartialEq, Eq, Structural)]
pub enum ErrorAction {
    /// The error is transient: retry.
    Continue,
    /// Degrade gracefully: stop retrying.
    Stop,
    /// Fatal error: do not retry.
    FailFast,
}

impl ErrorAction {
    /// The lower-case name of the action.
    pub fn to_string(&self) -> (s: String)
        ensures
            s@ == (match self {
                ErrorAction::Continue => "continue"@,
                ErrorAction::Stop => "stop"@,
                ErrorAction::FailFast => "fail_fast"@,
            }),
    {
        match self {
            ErrorAction::Continue => "continue".to_owned(),
            ErrorAction::Stop => "stop".to_owned(),
            ErrorAction::FailFast => "fail_fast".to_owned(),
        }
    }
}

/// Abstract state of an [`ErrorHandler`].
pub struct ErrorHandlerView {
    pub fail_fast: bool,
    pub error_threshold: nat,
    pub error_count: nat,
}

/// Default error threshold of a handler.
pub const DEFAULT_ERROR_THRESHOLD: usize = 10;

/// Tracks consecutive telemetry errors and decides the recovery action.
///
/// - Fail-fast mode stops on any error.
/// - Threshold mode continues until the error count reaches the threshold.
#[derive(Debug, Clone, Copy)]
pub struct ErrorHandler {
    fail_fast: bool,
    error_threshold: usize,
    error_count: usize,
}

impl View for ErrorHandler {
    type V = ErrorHandlerView;

    closed spec fn view(&self) -> ErrorHandlerView {
        ErrorHandlerView {
            fail_fast: self.fail_fast,
            error_threshold: self.error_threshold as nat,
            error_count: self.error_count as nat,
        }
    }
}

/// The action owed for `error` by a handler in state `h` whose count, after
/// counting this error, is `count`.
pub open spec fn action_for(h: ErrorHandlerView, count: nat, error: TelemetryError) -> ErrorAction {
    match error {
        TelemetryError::CircuitBreakerOpen => ErrorAction::Stop,
        TelemetryError::ValidationError(_) => ErrorAction::FailFast,
        _ => if h.fail_fast || count >= h.error_threshold {
            ErrorAction::Stop
        } else {
            ErrorAction::Continue
        },
    }
}

impl ErrorHandler {
    /// A handler tolerating 10 errors, not fail-fast, with no errors counted.
    pub fn new() -> (h: Self)
        ensures
            h@ == (ErrorHandlerView { fail_fast: false, error_threshold: 10, error_count: 0 }),
    {
        ErrorHandler { fail_fast: false, error_threshold: DEFAULT_ERROR_THRESHOLD, error_count: 0 }
    }

    /// A handler that stops on any error.
    pub fn fail_fast() -> (h: Self)
        ensures
            h@ == (ErrorHandlerView { fail_fast: true, error_threshold: 1, error_count: 0 }),
    {
        ErrorHandler { fail_fast: true, error_threshold: 1, error_count: 0 }
    }

    /// A handler tolerating up to `threshold` errors.
    pub fn with_threshold(threshold: usize) -> (h: Self)
        ensures
            h@ == (ErrorHandlerView { fail_fast: false, error_threshold: threshold as nat, error_count: 0 }),
    {
        ErrorHandler { fail_fast: false, error_threshold: threshold, error_count: 0 }
    }

    /// Counts `error` and decides the recovery action: circuit-breaker
    /// errors stop, validation errors fail fast, any other error stops when
    /// fail-fast is set or the count has reached the threshold, and
    /// continues otherwise.
    pub fn handle_error(&mut self, error: &TelemetryError) -> (a: ErrorAction)
        requires
            old(self)@.error_count < usize::MAX,
        ensures
            final(self)@ == (ErrorHandlerView { error_count: old(self)@.error_count + 1, ..old(self)@ }),
            a == action_for(old(self)@, old(self)@.error_count + 1, *error),
    {
        self.error_count = self.error_count + 1;
        match error {
            TelemetryError::CircuitBreakerOpen => ErrorAction::Stop,
            TelemetryError::ValidationError(_) => ErrorAction::FailFast,
            _ => {
                if self.fail_fast || self.error_count >= self.error_threshold {
                    ErrorAction::Stop
                } else {
                    ErrorAction::Continue
                }
            },
        }
    }

    /// Resets the error count after a successful operation.
    pub fn reset(&mut self)
        ensures
            final(self)@ == (ErrorHandlerView { error_count: 0, ..old(self)@ }),
    {
        self.error_count = 0;
    }

    /// The current error count.
    pub fn error_count(&self) -> (n: usize)
        ensures
            n == self@.error_count,
    {
        self.error_count
    }

    /// Whether the error count has reached the threshold.
    pub fn threshold_exceeded(&self) -> (b: bool)
        ensures
            b == (self@.error_count >= self@.error_threshold),
    {
        self.error_count >= self.error_threshold
    }
}

impl Default for ErrorHandler {
    fn default() -> (h: Self)
        ensures
            h@ == (ErrorHandlerView { fail_fast: false, error_threshold: 10, error_count: 0 }),
    {
        Self::new()
    }
}

} // verus!
