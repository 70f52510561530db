//! Authentication and validation of incoming telemetry webhooks.
//!
//! A request is checked in order: size, then HMAC-SHA256 signature (hex in
//! the signature header), then — once the caller has parsed the body — the
//! timestamp window (replay protection) and every field of the payload.

use std::collections::HashMap;
use vstd::prelude::*;

use hmac::{Hmac, Mac};
use sha2::Sha256;

use crate::telemetry::error_handling::TelemetryError;
use crate::telemetry::input_validation::{
    attribute_value_error, map_entries, span_name_error, InputValidator, ValidationError,
    ValidationErrorView,
};
use crate::text::owned;

verus! {

/// Largest accepted body, in bytes (64 KiB).
pub const MAX_PAYLOAD_BYTES: usize = 65536;

/// Largest accepted clock skew between sender and receiver, in seconds.
pub const MAX_TIMESTAMP_SKEW_SECS: u64 = 300;

/// Header carrying the hex-encoded HMAC-SHA256 signature.
pub const SIGNATURE_HEADER: &'static str = "X-Webhook-Signature";

/// A telemetry event delivered by webhook.
#[derive(Debug, Clone)]
pub struct WebhookPayload {
    /// Milliseconds since the Unix epoch when the event was emitted.
    pub timestamp_ms: u64,
    /// Service that emitted the event (an identifier).
    pub source: String,
    /// Kind of event (an identifier).
    pub event_type: String,
    /// Span the event belongs to, if any (an identifier).
    pub span_name: Option<String>,
    /// Attributes of the event.
    pub attributes: HashMap<String, String>,
}

/// Outcome of an accepted webhook.
#[derive(Debug, Clone)]
pub struct WebhookResult {
    pub accepted: bool,
    pub message: String,
}

/// The value of a hexadecimal digit.
pub open spec fn hex_value(c: char) -> int {
    if '0' <= c && c <= '9' {
        (c as int) - ('0' as int)
    } else if 'a' <= c && c <= 'f' {
        (c as int) - ('a' as int) + 10
    } else {
        (c as int) - ('A' as int) + 10
    }
}

/// A hexadecimal digit, either case.
pub open spec fn is_hex_digit(c: char) -> bool {
    ('0' <= c && c <= '9') || ('a' <= c && c <= 'f') || ('A' <= c && c <= 'F')
}

/// What `hex::decode` gives for `s`: the bytes of its digit pairs, or
/// `None` when `s` has odd length or a character that is not a hex digit.
pub open spec fn hex_decoded(s: Seq<char>) -> Option<Seq<u8>> {
    if s.len() % 2 == 0 && forall|i: int| 0 <= i < s.len() ==> is_hex_digit(#[trigger] s[i]) {
        Some(Seq::new(s.len() / 2, |i: int| (hex_value(s[2 * i]) * 16 + hex_value(s[2 * i + 1])) as u8))
    } else {
        None
    }
}

/// Calls `hex::decode`, which reads the string's bytes two hex digits at a
/// time (either case) and fails on odd length or on any other byte; a
/// non-ASCII character is such a byte.
#[verifier::external_body]
fn hex_decode(s: &str) -> (r: Option<Vec<u8>>)
    ensures
        match r {
            Some(v) => hex_decoded(s@) == Some(v@),
            None => hex_decoded(s@) is None,
        },
{
    hex::decode(s).ok()
}

/// The HMAC-SHA256 tag of `msg` under `key`.
pub uninterp spec fn hmac_sha256(key: Seq<u8>, msg: Seq<u8>) -> Seq<u8>;

/// Computes HMAC-SHA256 of `msg` under `key` (`Hmac::new_from_slice`, which
/// accepts keys of any length, then `update`) and checks `tag` against it
/// with `verify_slice`, which accepts exactly the full tag, compared in
/// constant time.
#[verifier::external_body]
fn hmac_sha256_matches(key: &[u8], msg: &[u8], tag: &[u8]) -> (r: bool)
    ensures
        r == (tag@ == hmac_sha256(key@, msg@)),
{
    match Hmac::<Sha256>::new_from_slice(key) {
        Ok(mut mac) => {
            mac.update(msg);
            mac.verify_slice(tag).is_ok()
        },
        Err(_) => false,
    }
}

/// Why a request is refused before its body is read.
pub enum RequestRejection {
    TooLarge,
    MissingSignature,
    NotHex,
    BadSignature,
}

/// The first reason, if any, to refuse a request with `body` signed
/// `signature` under `secret`.
pub open spec fn request_rejection(secret: Seq<u8>, body: Seq<u8>, signature: Seq<char>) -> Option<
    RequestRejection,
> {
    if body.len() > MAX_PAYLOAD_BYTES {
        Some(RequestRejection::TooLarge)
    } else if signature.len() == 0 {
        Some(RequestRejection::MissingSignature)
    } else if hex_decoded(signature) is None {
        Some(RequestRejection::NotHex)
    } else if hex_decoded(signature)->0 != hmac_sha256(secret, body) {
        Some(RequestRejection::BadSignature)
    } else {
        None
    }
}

/// `r` is the error owed for validation error `v`.
pub open spec fn is_validation_error(r: TelemetryError, v: ValidationErrorView) -> bool {
    r matches TelemetryError::ValidationError(e) && e@ == v
}

/// `r` is the outcome owed for `rejection`.
pub open spec fn request_outcome(r: Result<(), TelemetryError>, rejection: Option<RequestRejection>) -> bool {
    match rejection {
        None => r is Ok,
        Some(RequestRejection::TooLarge) => r matches Err(TelemetryError::PayloadTooLarge(n)) && n
            == MAX_PAYLOAD_BYTES,
        Some(RequestRejection::MissingSignature) => r matches Err(e) && is_validation_error(
            e,
            ValidationErrorView::EmptyValue("missing webhook signature"@),
        ),
        Some(RequestRejection::NotHex) => r matches Err(e) && is_validation_error(
            e,
            ValidationErrorView::InvalidFormat("signature must be hex-encoded"@),
        ),
        Some(RequestRejection::BadSignature) => r matches Err(e) && is_validation_error(
            e,
            ValidationErrorView::InvalidFormat("invalid webhook signature"@),
        ),
    }
}

/// The timestamp `ts` lies within the skew window around `now`.
pub open spec fn timestamp_in_window(ts: u64, now: u64) -> bool {
    let skew = MAX_TIMESTAMP_SKEW_SECS * 1000;
    &&& !(now > ts && now - ts > skew)
    &&& !(ts > now && ts - now > skew)
}

/// The error of a field that must be an identifier, if any.
pub open spec fn payload_fields_error(p: WebhookPayload) -> Option<ValidationErrorView> {
    if span_name_error(p.source@) is Some {
        span_name_error(p.source@)
    } else if span_name_error(p.event_type@) is Some {
        span_name_error(p.event_type@)
    } else {
        match p.span_name {
            Some(s) => span_name_error(s@),
            None => None,
        }
    }
}

/// Every attribute has an identifier key and a valid value.
pub open spec fn attributes_valid(m: Map<String, String>) -> bool {
    forall|k: String| #[trigger] m.contains_key(k) ==> span_name_error(k@) is None && attribute_value_error(
        m[k]@,
    ) is None
}

/// `v` is the error of some attribute of `m`: of its key, or, the key being
/// valid, of its value.
pub open spec fn some_attribute_error(m: Map<String, String>, v: ValidationErrorView) -> bool {
    exists|k: String|
        #[trigger] m.contains_key(k) && (span_name_error(k@) == Some(v) || (span_name_error(k@) is None
            && attribute_value_error(m[k]@) == Some(v)))
}

/// Verifies webhook requests with a shared HMAC secret.
#[derive(Debug, Clone)]
pub struct TelemetryWebhookHandler {
    secret: Vec<u8>,
}

impl TelemetryWebhookHandler {
    /// The shared secret.
    pub closed spec fn secret(&self) -> Seq<u8> {
        self.secret@
    }

    /// A handler for `secret`, which must not be empty.
    pub fn new(secret: Vec<u8>) -> (r: Result<Self, TelemetryError>)
        ensures
            secret@.len() == 0 ==> (r matches Err(TelemetryError::PoolConfigError(d)) && d@
                == "webhook HMAC secret must not be empty"@),
            secret@.len() > 0 ==> (r matches Ok(h) && h.secret() == secret@),
    {
        if secret.len() == 0 {
            return Err(TelemetryError::PoolConfigError(owned("webhook HMAC secret must not be empty")));
        }
        Ok(TelemetryWebhookHandler { secret })
    }

    /// Checks a request before its body is parsed: size, then signature
    /// (see [`request_rejection`]).
    pub fn check_request(&self, body: &[u8], signature: &str) -> (r: Result<(), TelemetryError>)
        ensures
            request_outcome(r, request_rejection(self.secret(), body@, signature@)),
    {
        if body.len() > MAX_PAYLOAD_BYTES {
            return Err(TelemetryError::PayloadTooLarge(MAX_PAYLOAD_BYTES));
        }
        if signature.is_empty() {
            return Err(
                TelemetryError::ValidationError(ValidationError::EmptyValue(owned("missing webhook signature"))),
            );
        }
        let expected = match hex_decode(signature) {
            Some(v) => v,
            None => {
                return Err(
                    TelemetryError::ValidationError(
                        ValidationError::InvalidFormat(owned("signature must be hex-encoded")),
                    ),
                );
            },
        };
        if !hmac_sha256_matches(self.secret.as_slice(), body, expected.as_slice()) {
            return Err(
                TelemetryError::ValidationError(
                    ValidationError::InvalidFormat(owned("invalid webhook signature")),
                ),
            );
        }
        Ok(())
    }

    /// Checks that `timestamp_ms` lies within [`MAX_TIMESTAMP_SKEW_SECS`] of
    /// `now_ms`, either way.
    pub fn check_timestamp_at(&self, timestamp_ms: u64, now_ms: u64) -> (r: Result<(), TelemetryError>)
        ensures
            timestamp_in_window(timestamp_ms, now_ms) ==> r is Ok,
            !timestamp_in_window(timestamp_ms, now_ms) ==> (r matches Err(e) && is_validation_error(
                e,
                ValidationErrorView::InvalidFormat(
                    "webhook timestamp is outside the allowed window (possible replay)"@,
                ),
            )),
    {
        let skew_ms = MAX_TIMESTAMP_SKEW_SECS * 1000;
        let too_old = now_ms > timestamp_ms && now_ms - timestamp_ms > skew_ms;
        let too_new = timestamp_ms > now_ms && timestamp_ms - now_ms > skew_ms;
        if too_old || too_new {
            return Err(
                TelemetryError::ValidationError(
                    ValidationError::InvalidFormat(
                        owned("webhook timestamp is outside the allowed window (possible replay)"),
                    ),
                ),
            );
        }
        Ok(())
    }

    /// Validates the payload's fields: source, event type and span name are
    /// identifiers, and so is every attribute key, with a valid value. When
    /// several attributes are invalid, the error is that of one of them.
    pub fn validate_payload(&self, payload: &WebhookPayload) -> (r: Result<(), TelemetryError>)
        ensures
            payload_fields_error(*payload) matches Some(v) ==> (r matches Err(e) && is_validation_error(e, v)),
            payload_fields_error(*payload) is None ==> (r is Ok <==> attributes_valid(payload.attributes@)),
            payload_fields_error(*payload) is None ==> (r matches Err(e) ==> (e matches TelemetryError::ValidationError(
                x,
            ) && some_attribute_error(payload.attributes@, x@))),
    {
        match InputValidator::validate_span_name(payload.source.as_str()) {
            Ok(()) => {},
            Err(e) => {
                return Err(TelemetryError::ValidationError(e));
            },
        }
        match InputValidator::validate_span_name(payload.event_type.as_str()) {
            Ok(()) => {},
            Err(e) => {
                return Err(TelemetryError::ValidationError(e));
            },
        }
        match &payload.span_name {
            Some(s) => match InputValidator::validate_span_name(s.as_str()) {
                Ok(()) => {},
                Err(e) => {
                    return Err(TelemetryError::ValidationError(e));
                },
            },
            None => {},
        }
        let entries = map_entries(&payload.attributes);
        let ghost m = payload.attributes@;
        let mut i: usize = 0;
        while i < entries.len()
            invariant
                i <= entries@.len(),
                entries@.len() == m.len(),
                m == payload.attributes@,
                payload_fields_error(*payload) is None,
                forall|j: int| 0 <= j < entries@.len() ==> m.contains_key(#[trigger] entries@[j].0) && m[entries@[j].0]
                    == entries@[j].1,
                forall|k: String| #[trigger] m.contains_key(k) ==> exists|j: int| 0 <= j < entries@.len() && entries@[j].0 == k,
                forall|j: int| 0 <= j < i ==> span_name_error(#[trigger] entries@[j].0@) is None && attribute_value_error(
                    entries@[j].1@,
                ) is None,
            decreases entries@.len() - i,
        {
            let ghost k = entries@[i as int].0;
            match InputValidator::validate_span_name(entries[i].0.as_str()) {
                Ok(()) => {},
                Err(e) => {
                    proof {
                        assert(m.contains_key(k));
                    }
                    return Err(TelemetryError::ValidationError(e));
                },
            }
            match InputValidator::validate_attribute_value(entries[i].1.as_str()) {
                Ok(()) => {},
                Err(e) => {
                    proof {
                        assert(m.contains_key(k));
                        assert(m[k] == entries@[i as int].1);
                    }
                    return Err(TelemetryError::ValidationError(e));
                },
            }
            i = i + 1;
        }
        proof {
            assert forall|k: String| #[trigger] m.contains_key(k) implies span_name_error(k@) is None
                && attribute_value_error(m[k]@) is None by {
                let j = choose|j: int| 0 <= j < entries@.len() && entries@[j].0 == k;
                assert(span_name_error(entries@[j].0@) is None);
            }
        }
        Ok(())
    }

    /// Accepts a parsed payload at clock reading `now_ms` (milliseconds
    /// since the Unix epoch): the timestamp window first, then the fields.
    pub fn accept_payload(&self, payload: &WebhookPayload, now_ms: u64) -> (r: Result<
        WebhookResult,
        TelemetryError,
    >)
        ensures
            !timestamp_in_window(payload.timestamp_ms, now_ms) ==> (r matches Err(e) && is_validation_error(
                e,
                ValidationErrorView::InvalidFormat(
                    "webhook timestamp is outside the allowed window (possible replay)"@,
                ),
            )),
            timestamp_in_window(payload.timestamp_ms, now_ms) ==> (payload_fields_error(*payload) matches Some(v)
                ==> (r matches Err(e) && is_validation_error(e, v))),
            timestamp_in_window(payload.timestamp_ms, now_ms) && payload_fields_error(*payload) is None ==> (r is Ok
                <==> attributes_valid(payload.attributes@)),
            r matches Ok(w) ==> w.accepted && w.message@ == "event recorded"@,
    {
        match self.check_timestamp_at(payload.timestamp_ms, now_ms) {
            Ok(()) => {},
            Err(e) => {
                return Err(e);
            },
        }
        match self.validate_payload(payload) {
            Ok(()) => {},
            Err(e) => {
                return Err(e);
            },
        }
        Ok(WebhookResult { accepted: true, message: owned("event recorded") })
    }
}

} // verus!
