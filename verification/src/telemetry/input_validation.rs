//! Input validation for telemetry data: span names, attribute values and
//! exporter endpoints.

use std::collections::HashMap;
use vstd::prelude::*;

use crate::text::{concat, contains_char, decimal, decimal_string, has_prefix, starts_with};
use vstd::utf8::encode_utf8;

verus! {

/// Longest accepted string field, in bytes.
pub const MAX_STRING_LENGTH: usize = 1024;

/// Most attributes accepted on one span.
pub const MAX_ATTRIBUTES: usize = 128;

/// Longest accepted endpoint URL, in bytes.
pub const MAX_ENDPOINT_LENGTH: usize = 2048;

/// Identifiers match `^[a-zA-Z0-9_\-\.]+$`.
pub const IDENTIFIER_PATTERN: &'static str = r"^[a-zA-Z0-9_\-\.]+$";

/// Validation error types.
#[derive(Debug, Clone)]
pub enum ValidationError {
    EmptyValue(String),
    TooLong(String),
    InvalidFormat(String),
    TooMany(String),
}

/// Abstract view of a [`ValidationError`]: its kind and its detail text.
pub enum ValidationErrorView {
    EmptyValue(Seq<char>),
    TooLong(Seq<char>),
    InvalidFormat(Seq<char>),
    TooMany(Seq<char>),
}

impl View for ValidationError {
    type V = ValidationErrorView;

    open spec fn view(&self) -> ValidationErrorView {
        match self {
            ValidationError::EmptyValue(s) => ValidationErrorView::EmptyValue(s@),
            ValidationError::TooLong(s) => ValidationErrorView::TooLong(s@),
            ValidationError::InvalidFormat(s) => ValidationErrorView::InvalidFormat(s@),
            ValidationError::TooMany(s) => ValidationErrorView::TooMany(s@),
        }
    }
}

/// The message a validation error displays.
pub open spec fn validation_error_message(e: ValidationErrorView) -> Seq<char> {
    match e {
        ValidationErrorView::EmptyValue(s) => "Empty value: "@ + s,
        ValidationErrorView::TooLong(s) => "Value too long: "@ + s,
        ValidationErrorView::InvalidFormat(s) => "Invalid format: "@ + s,
        ValidationErrorView::TooMany(s) => "Too many items: "@ + s,
    }
}

impl ValidationError {
    /// The human-readable message of this error.
    pub fn to_string(&self) -> (s: String)
        ensures
            s@ == validation_error_message(self@),
    {
        match self {
            ValidationError::EmptyValue(d) => concat("Empty value: ", d.as_str()),
            ValidationError::TooLong(d) => concat("Value too long: ", d.as_str()),
            ValidationError::InvalidFormat(d) => concat("Invalid format: ", d.as_str()),
            ValidationError::TooMany(d) => concat("Too many items: ", d.as_str()),
        }
    }
}

/// A character allowed in identifiers: ASCII letter, digit, `_`, `-` or `.`.
pub open spec fn is_identifier_char(c: char) -> bool {
    ('a' <= c && c <= 'z') || ('A' <= c && c <= 'Z') || ('0' <= c && c <= '9') || c == '_'
        || c == '-' || c == '.'
}

/// `s` matches [`IDENTIFIER_PATTERN`]: non-empty, identifier characters only.
pub open spec fn is_identifier(s: Seq<char>) -> bool {
    s.len() > 0 && forall|i: int| 0 <= i < s.len() ==> is_identifier_char(#[trigger] s[i])
}

/// Compiles `pattern` with `regex::Regex::new` and calls `is_match` on `s`.
/// The pattern must be [`IDENTIFIER_PATTERN`], which (anchored at both ends
/// and holding one repeated character class) compiles and matches exactly
/// the non-empty strings of identifier characters.
#[verifier::external_body]
fn identifier_regex_matches(pattern: &str, s: &str) -> (r: bool)
    requires
        pattern@ == IDENTIFIER_PATTERN@,
    ensures
        r == is_identifier(s@),
{
    regex::Regex::new(pattern).map(|re| re.is_match(s)).unwrap_or(false)
}

/// The byte length `str::len` reports for a string with characters `s`.
pub open spec fn byte_len(s: Seq<char>) -> usize {
    encode_utf8(s).len() as usize
}

/// The error owed for span name `name`, if any.
pub open spec fn span_name_error(name: Seq<char>) -> Option<ValidationErrorView> {
    if name.len() == 0 {
        Some(ValidationErrorView::EmptyValue("span name cannot be empty"@))
    } else if byte_len(name) > MAX_STRING_LENGTH {
        Some(ValidationErrorView::TooLong("span name exceeds 1024 characters"@))
    } else if !is_identifier(name) {
        Some(ValidationErrorView::InvalidFormat("span name contains invalid characters"@))
    } else {
        None
    }
}

/// The error owed for attribute value `value`, if any.
pub open spec fn attribute_value_error(value: Seq<char>) -> Option<ValidationErrorView> {
    if byte_len(value) > MAX_STRING_LENGTH {
        Some(ValidationErrorView::TooLong("attribute value exceeds 1024 characters"@))
    } else if value.contains('\0') {
        Some(ValidationErrorView::InvalidFormat("attribute value contains null bytes"@))
    } else {
        None
    }
}

/// The error owed for exporter endpoint `endpoint`, if any.
pub open spec fn endpoint_error(endpoint: Seq<char>) -> Option<ValidationErrorView> {
    if endpoint.len() == 0 {
        Some(ValidationErrorView::EmptyValue("endpoint cannot be empty"@))
    } else if !has_prefix(endpoint, "http://"@) && !has_prefix(endpoint, "https://"@) {
        Some(ValidationErrorView::InvalidFormat("endpoint must use http or https"@))
    } else if byte_len(endpoint) > MAX_ENDPOINT_LENGTH {
        Some(ValidationErrorView::TooLong("endpoint URL too long"@))
    } else {
        None
    }
}

/// The result owed by a check whose error, if any, is `e`.
pub open spec fn outcome(r: Result<(), ValidationError>, e: Option<ValidationErrorView>) -> bool {
    match e {
        None => r is Ok,
        Some(v) => r matches Err(x) && x@ == v,
    }
}

/// Calls `HashMap::iter`, collecting the entries: std documents that the
/// iterator visits every entry exactly once, in an unspecified order.
#[verifier::external_body]
pub(crate) fn map_entries(m: &HashMap<String, String>) -> (v: Vec<(String, String)>)
    ensures
        v@.len() == m@.len(),
        forall|i: int| 0 <= i < v@.len() ==> m@.contains_key(#[trigger] v@[i].0) && m@[v@[i].0] == v@[i].1,
        forall|k: String| #[trigger] m@.contains_key(k) ==> exists|i: int| 0 <= i < v@.len() && v@[i].0 == k,
{
    m.iter().map(|(k, v)| (k.clone(), v.clone())).collect()
}

/// Validates telemetry input data to prevent injection and format attacks.
#[derive(Debug, Clone, Copy)]
pub struct InputValidator;

impl InputValidator {
    /// Validates a span name: non-empty, at most 1024 bytes, and made of
    /// identifier characters only.
    pub fn validate_span_name(name: &str) -> (r: Result<(), ValidationError>)
        ensures
            outcome(r, span_name_error(name@)),
    {
        if name.is_empty() {
            return Err(ValidationError::EmptyValue("span name cannot be empty".to_owned()));
        }
        if name.len() > MAX_STRING_LENGTH {
            return Err(ValidationError::TooLong("span name exceeds 1024 characters".to_owned()));
        }
        if !identifier_regex_matches(IDENTIFIER_PATTERN, name) {
            return Err(
                ValidationError::InvalidFormat("span name contains invalid characters".to_owned()),
            );
        }
        Ok(())
    }

    /// Validates an attribute value: at most 1024 bytes and no NUL byte.
    pub fn validate_attribute_value(value: &str) -> (r: Result<(), ValidationError>)
        ensures
            outcome(r, attribute_value_error(value@)),
    {
        if value.len() > MAX_STRING_LENGTH {
            return Err(
                ValidationError::TooLong("attribute value exceeds 1024 characters".to_owned()),
            );
        }
        if contains_char(value, '\0') {
            return Err(
                ValidationError::InvalidFormat("attribute value contains null bytes".to_owned()),
            );
        }
        Ok(())
    }

    /// Validates a collection of span attributes: at most 128 of them, and
    /// every key and value a valid attribute value. When several entries are
    /// invalid, the error reported is that of one of them.
    pub fn validate_attributes(attributes: &HashMap<String, String>) -> (r: Result<
        (),
        ValidationError,
    >)
        ensures
            attributes@.len() > MAX_ATTRIBUTES ==> (r matches Err(e) && e is TooMany),
            attributes@.len() <= MAX_ATTRIBUTES ==> (r is Ok <==> forall|k: String|
                #[trigger] attributes@.contains_key(k) ==> attribute_value_error(k@) is None
                    && attribute_value_error(attributes@[k]@) is None),
            attributes@.len() <= MAX_ATTRIBUTES ==> (r matches Err(e) ==> (exists|k: String|
                #[trigger] attributes@.contains_key(k) && (attribute_value_error(k@) == Some(e@)
                    || (attribute_value_error(k@) is None && attribute_value_error(
                    attributes@[k]@,
                ) == Some(e@))))),
    {
        let entries = map_entries(attributes);
        if entries.len() > MAX_ATTRIBUTES {
            let mut detail = concat("too many attributes: ", decimal_string(entries.len() as u64).as_str());
            detail.append(" > 128");
            return Err(ValidationError::TooMany(detail));
        }
        let mut i: usize = 0;
        while i < entries.len()
            invariant
                i <= entries@.len(),
                entries@.len() == attributes@.len(),
                entries@.len() <= MAX_ATTRIBUTES,
                forall|j: int| 0 <= j < entries@.len() ==> attributes@.contains_key(#[trigger] entries@[j].0)
                    && attributes@[entries@[j].0] == entries@[j].1,
                forall|j: int| 0 <= j < i ==> attribute_value_error(#[trigger] entries@[j].0@) is None
                    && attribute_value_error(entries@[j].1@) is None,
            decreases entries@.len() - i,
        {
            let (k, v) = (&entries[i].0, &entries[i].1);
            match Self::validate_attribute_value(k.as_str()) {
                Ok(()) => {},
                Err(e) => {
                    return Err(e);
                },
            }
            match Self::validate_attribute_value(v.as_str()) {
                Ok(()) => {},
                Err(e) => {
                    return Err(e);
                },
            }
            i = i + 1;
        }
        proof {
            assert forall|k: String| #[trigger] attributes@.contains_key(k) implies attribute_value_error(k@) is None
                && attribute_value_error(attributes@[k]@) is None by {
                let j = choose|j: int| 0 <= j < entries@.len() && entries@[j].0 == k;
                assert(attribute_value_error(entries@[j].0@) is None);
            }
        }
        Ok(())
    }

    /// Validates an exporter endpoint URL: non-empty, `http://` or
    /// `https://`, at most 2048 bytes.
    pub fn validate_endpoint(endpoint: &str) -> (r: Result<(), ValidationError>)
        ensures
            outcome(r, endpoint_error(endpoint@)),
    {
        if endpoint.is_empty() {
            return Err(ValidationError::EmptyValue("endpoint cannot be empty".to_owned()));
        }
        if !starts_with(endpoint, "http://") && !starts_with(endpoint, "https://") {
            return Err(ValidationError::InvalidFormat("endpoint must use http or https".to_owned()));
        }
        if endpoint.len() > MAX_ENDPOINT_LENGTH {
            return Err(ValidationError::TooLong("endpoint URL too long".to_owned()));
        }
        Ok(())
    }
}

} // verus!
