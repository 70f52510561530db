//! Cursor-based pagination of WebSocket event streams.
//!
//! Every page carries an opaque cursor for the position of its last event;
//! the client sends it back to get exactly the following page. A cursor is
//! the base64url text (URL-safe alphabet, no padding) of a JSON payload.
//! This module checks page sizes, frames and checks cursor text, and cuts a
//! page out of a look-ahead read; reading the JSON payload into a cursor
//! value is the caller's.

use base64::engine::general_purpose::URL_SAFE_NO_PAD;
use base64::Engine;
use vstd::prelude::*;

use crate::text::{concat, decimal, decimal_string, owned};

verus! {

/// Hard upper bound on events per page.
pub const MAX_PAGE_SIZE: u32 = 100;

/// Events per page when the client names no page size.
pub const DEFAULT_PAGE_SIZE: u32 = 20;

/// Longest cursor text accepted, in bytes.
pub const MAX_CURSOR_BYTES: usize = 512;

/// Errors of the pagination layer.
#[derive(Debug, Clone, PartialEq, Eq)]
pub enum PaginationError {
    /// The page size was zero or above [`MAX_PAGE_SIZE`].
    InvalidPageSize(u32),
    /// The cursor text was longer than [`MAX_CURSOR_BYTES`].
    CursorTooLong,
    /// The cursor text was not base64url.
    CursorInvalidEncoding,
    /// The cursor's payload was not a cursor.
    CursorMalformed(String),
}

/// The message each error displays.
pub open spec fn pagination_error_message(e: PaginationError) -> Seq<char> {
    match e {
        PaginationError::InvalidPageSize(n) => "page_size must be between 1 and 100, got "@ + decimal(
            n as nat,
        ),
        PaginationError::CursorTooLong => "cursor exceeds maximum length of 512 bytes"@,
        PaginationError::CursorInvalidEncoding => "cursor contains invalid characters"@,
        PaginationError::CursorMalformed(d) => "cursor payload is malformed: "@ + d@,
    }
}

impl PaginationError {
    /// The message this error displays.
    pub fn to_string(&self) -> (s: String)
        ensures
            s@ == pagination_error_message(*self),
    {
        match self {
            PaginationError::InvalidPageSize(n) => {
                let digits = decimal_string(*n as u64);
                concat("page_size must be between 1 and 100, got ", digits.as_str())
            },
            PaginationError::CursorTooLong => owned("cursor exceeds maximum length of 512 bytes"),
            PaginationError::CursorInvalidEncoding => owned("cursor contains invalid characters"),
            PaginationError::CursorMalformed(d) => concat("cursor payload is malformed: ", d.as_str()),
        }
    }
}

/// Whether `c` belongs to the base64url alphabet.
pub open spec fn is_base64url_char(c: char) -> bool {
    ('A' <= c && c <= 'Z') || ('a' <= c && c <= 'z') || ('0' <= c && c <= '9') || c == '-' || c == '_'
}

/// Whether every character of `s` belongs to the base64url alphabet.
pub open spec fn all_base64url(s: Seq<char>) -> bool {
    forall|i: int| 0 <= i < s.len() ==> is_base64url_char(#[trigger] s[i])
}

/// The base64url text, without padding, of the bytes `b`.
pub uninterp spec fn base64url_text(b: Seq<u8>) -> Seq<char>;

/// The bytes that the base64url text `s` (without padding) decodes to;
/// `None` where it is not such a text.
pub uninterp spec fn base64url_bytes(s: Seq<char>) -> Option<Seq<u8>>;

/// Encodes through `URL_SAFE_NO_PAD.encode`; the result is named
/// [`base64url_text`]. `base64` documents the engine's alphabet as the
/// URL-safe one and its decoding as undoing its encoding.
#[verifier::external_body]
fn base64url_encode(bytes: &[u8]) -> (r: String)
    ensures
        r@ == base64url_text(bytes@),
        all_base64url(r@),
        base64url_bytes(r@) == Some(bytes@),
{
    URL_SAFE_NO_PAD.encode(bytes)
}

/// Decodes through `URL_SAFE_NO_PAD.decode`; the result is named
/// [`base64url_bytes`].
#[verifier::external_body]
fn base64url_decode(s: &str) -> (r: Option<Vec<u8>>)
    ensures
        match r {
            Some(v) => base64url_bytes(s@) == Some(v@),
            None => base64url_bytes(s@) is None,
        },
{
    match URL_SAFE_NO_PAD.decode(s) {
        Ok(v) => Some(v),
        Err(_) => None,
    }
}

/// The byte length that `str::len` reports for a string with characters
/// `s`.
pub open spec fn utf8_len(s: Seq<char>) -> usize {
    vstd::utf8::encode_utf8(s).len() as usize
}

/// What reading the cursor text `raw` gives: its payload bytes, or why it
/// is refused.
pub open spec fn cursor_payload_outcome(raw: Seq<char>) -> Result<Seq<u8>, PaginationError> {
    if utf8_len(raw) > MAX_CURSOR_BYTES {
        Err(PaginationError::CursorTooLong)
    } else if !all_base64url(raw) {
        Err(PaginationError::CursorInvalidEncoding)
    } else {
        match base64url_bytes(raw) {
            Some(b) => Ok(b),
            None => Err(PaginationError::CursorInvalidEncoding),
        }
    }
}

/// The cursor text of the payload `payload`. Read back, a cursor text
/// within the length limit gives the payload it was made from.
pub fn encode_cursor_payload(payload: &[u8]) -> (s: String)
    ensures
        s@ == base64url_text(payload@),
        all_base64url(s@),
        utf8_len(s@) <= MAX_CURSOR_BYTES ==> cursor_payload_outcome(s@) == Ok::<
            Seq<u8>,
            PaginationError,
        >(payload@),
{
    base64url_encode(payload)
}

fn all_base64url_exec(s: &str) -> (b: bool)
    ensures
        b == all_base64url(s@),
{
    let cs = crate::text::chars_of(s);
    let mut i: usize = 0;
    while i < cs.len()
        invariant
            cs@ == s@,
            i <= cs@.len(),
            forall|j: int| 0 <= j < i ==> is_base64url_char(#[trigger] s@[j]),
        decreases cs@.len() - i,
    {
        let c = cs[i];
        if !(('A' <= c && c <= 'Z') || ('a' <= c && c <= 'z') || ('0' <= c && c <= '9') || c == '-'
            || c == '_') {
            assert(!is_base64url_char(s@[i as int]));
            return false;
        }
        i = i + 1;
    }
    true
}

/// Reads the cursor text `raw` received from a client into its payload
/// bytes: text longer than [`MAX_CURSOR_BYTES`] bytes is too long; text
/// outside the base64url alphabet, or that does not decode, is invalid.
pub fn cursor_payload(raw: &str) -> (r: Result<Vec<u8>, PaginationError>)
    ensures
        match r {
            Ok(v) => cursor_payload_outcome(raw@) == Ok::<Seq<u8>, PaginationError>(v@),
            Err(e) => cursor_payload_outcome(raw@) == Err::<Seq<u8>, PaginationError>(e),
        },
{
    if raw.len() > MAX_CURSOR_BYTES {
        return Err(PaginationError::CursorTooLong);
    }
    if !all_base64url_exec(raw) {
        return Err(PaginationError::CursorInvalidEncoding);
    }
    match base64url_decode(raw) {
        Some(v) => Ok(v),
        None => Err(PaginationError::CursorInvalidEncoding),
    }
}

/// A client's pagination request: the page size it asks for and the cursor
/// text from the previous page, if any.
#[derive(Debug, Clone)]
pub struct PaginationRequest {
    pub page_size: u32,
    pub cursor: Option<String>,
}

/// A checked pagination request: a page size within bounds and the payload
/// of its cursor, `None` for the first page.
#[derive(Debug, Clone, PartialEq, Eq)]
pub struct CheckedPagination {
    pub page_size: u32,
    pub cursor_payload: Option<Vec<u8>>,
}

/// Whether `n` is an acceptable page size.
pub open spec fn valid_page_size(n: u32) -> bool {
    1 <= n <= MAX_PAGE_SIZE
}

impl PaginationRequest {
    /// A request for the first page, of the default size.
    pub fn first_page() -> (r: Self)
        ensures
            r.page_size == DEFAULT_PAGE_SIZE,
            r.cursor is None,
    {
        PaginationRequest { page_size: DEFAULT_PAGE_SIZE, cursor: None }
    }

    /// Checks the request: a page size of zero or above [`MAX_PAGE_SIZE`]
    /// is refused; an absent or empty cursor asks for the first page; any
    /// other cursor text must read as a cursor payload.
    pub fn check(self) -> (r: Result<CheckedPagination, PaginationError>)
        ensures
            !valid_page_size(self.page_size) ==> r == Err::<CheckedPagination, PaginationError>(
                PaginationError::InvalidPageSize(self.page_size),
            ),
            valid_page_size(self.page_size) ==> match self.cursor {
                None => r matches Ok(c) && c.page_size == self.page_size && c.cursor_payload is None,
                Some(s) => if s@.len() == 0 {
                    r matches Ok(c) && c.page_size == self.page_size && c.cursor_payload is None
                } else {
                    match cursor_payload_outcome(s@) {
                        Ok(b) => r matches Ok(c) && c.page_size == self.page_size && (
                        c.cursor_payload matches Some(v) && v@ == b),
                        Err(e) => r == Err::<CheckedPagination, PaginationError>(e),
                    }
                },
            },
    {
        if self.page_size == 0 || self.page_size > MAX_PAGE_SIZE {
            return Err(PaginationError::InvalidPageSize(self.page_size));
        }
        match self.cursor {
            None => Ok(CheckedPagination { page_size: self.page_size, cursor_payload: None }),
            Some(s) => {
                if s.as_str().unicode_len() == 0 {
                    Ok(CheckedPagination { page_size: self.page_size, cursor_payload: None })
                } else {
                    match cursor_payload(s.as_str()) {
                        Ok(v) => Ok(CheckedPagination { page_size: self.page_size, cursor_payload: Some(v) }),
                        Err(e) => Err(e),
                    }
                }
            },
        }
    }
}

/// A page of events for a WebSocket client.
#[derive(Debug)]
pub struct EventPage<E> {
    /// The events of the page, at most `page_size` of them.
    pub events: Vec<E>,
    /// The cursor of the next page, when more events may follow.
    pub next_cursor: Option<String>,
    /// Whether more events may follow this page.
    pub has_more: bool,
    /// The page size that was asked for.
    pub page_size: u32,
}

impl<E> EventPage<E> {
    /// Cuts a page out of a look-ahead read of at most `page_size + 1`
    /// events: more events follow when there are more than `page_size`,
    /// and then the page keeps the first `page_size` and its next cursor is
    /// the text that `cursor_text` gives for the last event kept.
    pub fn from_lookahead<F: Fn(&E) -> String>(events: Vec<E>, page_size: u32, cursor_text: F) -> (page:
        Self)
        requires
            forall|e: &E| #[trigger] cursor_text.requires((e,)),
        ensures
            page.page_size == page_size,
            page.has_more == (events@.len() > page_size),
            page.has_more ==> page.events@ == events@.subrange(0, page_size as int),
            !page.has_more ==> page.events@ == events@,
            !page.has_more || page_size == 0 ==> page.next_cursor is None,
            page.has_more && page_size > 0 ==> (page.next_cursor matches Some(c) && cursor_text.ensures(
                (&events@[page_size - 1],),
                c,
            )),
    {
        let mut events = events;
        let has_more = events.len() > page_size as usize;
        if has_more {
            events.truncate(page_size as usize);
        }
        let next_cursor = if has_more && events.len() > 0 {
            let last = &events[events.len() - 1];
            Some(cursor_text(last))
        } else {
            None
        };
        EventPage { events, next_cursor, has_more, page_size }
    }
}

} // verus!
