//! Listing cursors: a position `(created_at, id)` in a listing ordered by
//! creation time, as opaque text.
//!
//! The cursor of a position is the standard base64 text of
//! `"{created_at in RFC 3339}|{id}"`. Instants are microseconds since the
//! Unix epoch, UTC.

use base64::engine::general_purpose::STANDARD;
use base64::Engine;
use uuid::Uuid;
use vstd::prelude::*;
use vstd::utf8::{decode_utf8, encode_utf8, valid_utf8};

use crate::calendar::{parse_rfc3339, rfc3339_of, rfc3339_reading, rfc3339_text};
use crate::ids::{parse_uuid, uuid_reading, uuid_text, uuid_to_string};
use crate::text::{chars_of, concat, owned, push_char};

verus! {

/// The standard base64 text, with padding, of the bytes `b`.
pub uninterp spec fn base64_text(b: Seq<u8>) -> Seq<char>;

/// What decoding the standard base64 text `s` gives: its bytes, or the
/// text of `base64`'s decode error.
pub uninterp spec fn base64_reading(s: Seq<char>) -> Result<Seq<u8>, Seq<char>>;

/// The text of std's error for bytes that are not UTF-8.
pub uninterp spec fn utf8_error_text(b: Seq<u8>) -> Seq<char>;

/// Encodes through `STANDARD.encode`; the result is named [`base64_text`].
#[verifier::external_body]
fn base64_encode(bytes: &[u8]) -> (r: String)
    ensures
        r@ == base64_text(bytes@),
{
    STANDARD.encode(bytes)
}

/// Decodes through `STANDARD.decode`; an error is written with its
/// `Display`. The result is named [`base64_reading`].
#[verifier::external_body]
fn base64_decode(s: &str) -> (r: Result<Vec<u8>, String>)
    ensures
        match r {
            Ok(v) => base64_reading(s@) == Ok::<Seq<u8>, Seq<char>>(v@),
            Err(e) => base64_reading(s@) == Err::<Seq<u8>, Seq<char>>(e@),
        },
{
    match STANDARD.decode(s) {
        Ok(v) => Ok(v),
        Err(e) => Err(e.to_string()),
    }
}

/// Reads the bytes through `String::from_utf8`, which std documents as
/// failing exactly on bytes that are not UTF-8 and otherwise giving the
/// text they encode; an error is written with its `Display`, named
/// [`utf8_error_text`].
#[verifier::external_body]
fn utf8_string(bytes: Vec<u8>) -> (r: Result<String, String>)
    ensures
        match r {
            Ok(s) => valid_utf8(bytes@) && s@ == decode_utf8(bytes@),
            Err(e) => !valid_utf8(bytes@) && e@ == utf8_error_text(bytes@),
        },
{
    match String::from_utf8(bytes) {
        Ok(s) => Ok(s),
        Err(e) => Err(e.to_string()),
    }
}

/// The text a cursor encodes for the position `(created_at, id)`.
pub open spec fn cursor_text(created_at: i64, id: Uuid) -> Option<Seq<char>> {
    match rfc3339_of(created_at) {
        Some(t) => Some(base64_text(encode_utf8(t + "|"@ + uuid_text(id)))),
        None => None,
    }
}

/// The cursor of the position `(created_at, id)`; `None` when the instant
/// lies outside the range of dates that `chrono` represents.
pub fn encode(created_at: i64, id: Uuid) -> (r: Option<String>)
    ensures
        match r {
            Some(s) => cursor_text(created_at, id) == Some(s@),
            None => cursor_text(created_at, id) is None,
        },
{
    match rfc3339_text(created_at) {
        Some(t) => {
            let a = concat(t.as_str(), "|");
            let u = uuid_to_string(&id);
            let s = concat(a.as_str(), u.as_str());
            let bytes = s.as_str().as_bytes();
            Some(base64_encode(bytes))
        },
        None => None,
    }
}

/// Whether `k` is the position of the first `|` of `s`.
pub open spec fn first_bar(s: Seq<char>, k: int) -> bool {
    0 <= k < s.len() && s[k] == '|' && forall|j: int| 0 <= j < k ==> s[j] != '|'
}

/// What reading the text `s` of a cursor gives: the timestamp before its
/// first `|` and the identifier after it.
pub open spec fn position_reading(s: Seq<char>) -> Result<(i64, Uuid), Seq<char>> {
    if forall|j: int| 0 <= j < s.len() ==> s[j] != '|' {
        Err("missing id in cursor"@)
    } else {
        let k = choose|k: int| first_bar(s, k);
        match rfc3339_reading(s.subrange(0, k)) {
            Err(e) => Err("timestamp parse error: "@ + e),
            Ok(t) => match uuid_reading(s.subrange(k + 1, s.len() as int)) {
                Err(e) => Err("uuid parse error: "@ + e),
                Ok(u) => Ok((t, u)),
            },
        }
    }
}

/// What reading the cursor `cursor` gives: its position, or why it is not
/// a cursor.
pub open spec fn cursor_reading(cursor: Seq<char>) -> Result<(i64, Uuid), Seq<char>> {
    match base64_reading(cursor) {
        Err(e) => Err("base64 decode error: "@ + e),
        Ok(b) => if !valid_utf8(b) {
            Err("utf8 error: "@ + utf8_error_text(b))
        } else {
            position_reading(decode_utf8(b))
        },
    }
}

fn text_between(cs: &Vec<char>, lo: usize, hi: usize) -> (r: String)
    requires
        lo <= hi <= cs@.len(),
    ensures
        r@ == cs@.subrange(lo as int, hi as int),
{
    let mut r = String::new();
    let mut i: usize = lo;
    while i < hi
        invariant
            lo <= i <= hi <= cs@.len(),
            r@ == cs@.subrange(lo as int, i as int),
        decreases hi - i,
    {
        push_char(&mut r, cs[i]);
        i = i + 1;
        assert(r@ =~= cs@.subrange(lo as int, i as int));
    }
    r
}

fn read_position(s: &str) -> (r: Result<(i64, Uuid), String>)
    ensures
        match r {
            Ok(p) => position_reading(s@) == Ok::<(i64, Uuid), Seq<char>>(p),
            Err(e) => position_reading(s@) == Err::<(i64, Uuid), Seq<char>>(e@),
        },
{
    let cs = chars_of(s);
    let mut k: usize = 0;
    while k < cs.len() && cs[k] != '|'
        invariant
            cs@ == s@,
            k <= cs@.len(),
            forall|j: int| 0 <= j < k ==> cs@[j] != '|',
        decreases cs@.len() - k,
    {
        k = k + 1;
    }
    if k == cs.len() {
        return Err(owned("missing id in cursor"));
    }
    proof {
        assert(first_bar(s@, k as int));
        let c = choose|c: int| first_bar(s@, c);
        assert(first_bar(s@, c));
        if c < k {
            assert(s@[c] != '|');
        } else if c > k {
            assert(s@[k as int] != '|');
        }
        assert(c == k);
    }
    let ts = text_between(&cs, 0, k);
    let id = text_between(&cs, k + 1, cs.len());
    match parse_rfc3339(ts.as_str()) {
        Err(e) => Err(concat("timestamp parse error: ", e.as_str())),
        Ok(t) => match parse_uuid(id.as_str()) {
            Err(e) => Err(concat("uuid parse error: ", e.as_str())),
            Ok(u) => Ok((t, u)),
        },
    }
}

/// Reads a cursor back into its position: the cursor must be standard
/// base64 of UTF-8 text holding a `|`, with an RFC 3339 timestamp before
/// the first `|` and an identifier after it.
pub fn decode(cursor: &str) -> (r: Result<(i64, Uuid), String>)
    ensures
        match r {
            Ok(p) => cursor_reading(cursor@) == Ok::<(i64, Uuid), Seq<char>>(p),
            Err(e) => cursor_reading(cursor@) == Err::<(i64, Uuid), Seq<char>>(e@),
        },
{
    let bytes = match base64_decode(cursor) {
        Ok(b) => b,
        Err(e) => {
            return Err(concat("base64 decode error: ", e.as_str()));
        },
    };
    let text = match utf8_string(bytes) {
        Ok(t) => t,
        Err(e) => {
            return Err(concat("utf8 error: ", e.as_str()));
        },
    };
    read_position(text.as_str())
}

} // verus!
