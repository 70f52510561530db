//! Masking of sensitive fields in payloads written to logs.
//!
//! A field is sensitive when its name, in lowercase, is one of a few
//! exact names (`password`, `token`, ...) or is such a name joined to
//! another word by an underscore (`account_0`, `user_password`); plurals
//! such as `tokens` are not. A sensitive text value longer than eight bytes
//! keeps its first and last four bytes around `****`; any other sensitive
//! value becomes `****`.

use vstd::prelude::*;
use vstd::utf8::{
    decode_utf8, decode_utf8_encode_utf8, encode_utf8, encode_utf8_decode_utf8, encode_utf8_valid_utf8,
    is_ascii_chars, is_ascii_chars_encode_utf8, is_char_boundary, is_char_boundary_iff_not_is_continuation_byte,
    is_continuation_byte, valid_utf8, valid_utf8_split,
};

use crate::text::{concat, ends_with, has_prefix, has_suffix, owned, starts_with, str_eq};
use crate::utils::retry::{lowercase, to_lowercase};

verus! {

/// Whether a lowercase field name names a sensitive field.
pub open spec fn sensitive_name(k: Seq<char>) -> bool {
    ||| k == "stellar_account"@
    ||| k == "account"@
    ||| k == "password"@
    ||| k == "secret"@
    ||| k == "token"@
    ||| k == "api_key"@
    ||| k == "authorization"@
    ||| has_prefix(k, "account_"@)
    ||| has_prefix(k, "password_"@)
    ||| has_prefix(k, "secret_"@)
    ||| has_prefix(k, "token_"@)
    ||| has_suffix(k, "_account"@)
    ||| has_suffix(k, "_password"@)
    ||| has_suffix(k, "_secret"@)
    ||| has_suffix(k, "_token"@)
}

/// Whether the field named `key` is sensitive, its name compared in
/// lowercase.
pub fn is_sensitive_field(key: &str) -> (r: bool)
    ensures
        r == sensitive_name(lowercase(key@)),
{
    let lowered = to_lowercase(key);
    let k = lowered.as_str();
    str_eq(k, "stellar_account") || str_eq(k, "account") || str_eq(k, "password") || str_eq(k, "secret")
        || str_eq(k, "token") || str_eq(k, "api_key") || str_eq(k, "authorization") || starts_with(
        k,
        "account_",
    ) || starts_with(k, "password_") || starts_with(k, "secret_") || starts_with(k, "token_") || ends_with(
        k,
        "_account",
    ) || ends_with(k, "_password") || ends_with(k, "_secret") || ends_with(k, "_token")
}

/// Whether a text value of bytes `b` can be cut where its mask keeps
/// four bytes at each end: it is no longer than eight bytes, or both cuts
/// fall on character boundaries.
pub open spec fn maskable(b: Seq<u8>) -> bool {
    b.len() <= 8 || (is_char_boundary(b, 4) && is_char_boundary(b, b.len() - 4))
}

/// The text a sensitive value becomes: a text value whose bytes `Some(b)`
/// number more than eight keeps its first and last four bytes around
/// `****`; any other value is `****` alone.
pub open spec fn masked(value: Option<Seq<u8>>) -> Seq<char> {
    match value {
        Some(b) => if b.len() > 8 {
            decode_utf8(b.subrange(0, 4)) + "****"@ + decode_utf8(b.subrange(b.len() - 4, b.len() as int))
        } else {
            "****"@
        },
        None => "****"@,
    }
}

/// The text a sensitive value is logged as. `text` is the value when it
/// is a text, `None` when it is a value of another kind.
pub fn mask_value(text: Option<&str>) -> (r: String)
    requires
        text matches Some(s) ==> maskable(encode_utf8(s@)),
    ensures
        r@ == masked(
            match text {
                Some(s) => Some(encode_utf8(s@)),
                None => None,
            },
        ),
{
    match text {
        Some(s) => {
            let n = s.as_bytes().len();
            if n > 8 {
                let (head, _) = s.split_at(4);
                let (_, tail) = s.split_at(n - 4);
                proof {
                    encode_utf8_decode_utf8(head@);
                    encode_utf8_decode_utf8(tail@);
                }
                let a = concat(head, "****");
                concat(a.as_str(), tail)
            } else {
                owned("****")
            }
        },
        None => owned("****"),
    }
}

/// A JSON value. An object holds its fields in order, each name once.
#[derive(Debug, PartialEq)]
pub enum JsonValue {
    Null,
    Bool(bool),
    /// A number, by its JSON text.
    Number(String),
    Text(String),
    Array(Vec<JsonValue>),
    Object(Vec<(String, JsonValue)>),
}

/// The bytes of a value when it is a text.
pub open spec fn text_bytes(v: JsonValue) -> Option<Seq<u8>> {
    match v {
        JsonValue::Text(t) => Some(encode_utf8(t@)),
        _ => None,
    }
}

/// Whether every sensitive field of `v`, at any depth, holds a value that
/// can be masked.
pub open spec fn mask_safe(v: JsonValue) -> bool
    decreases v,
{
    match v {
        JsonValue::Array(items) => forall|i: int| 0 <= i < items@.len() ==> mask_safe(#[trigger] items@[i]),
        JsonValue::Object(fields) => forall|i: int|
            0 <= i < fields@.len() ==> if sensitive_name(lowercase((#[trigger] fields@[i]).0@)) {
                text_bytes(fields@[i].1) matches Some(b) ==> maskable(b)
            } else {
                mask_safe(fields@[i].1)
            },
        _ => true,
    }
}

/// Whether `r` is `v` with every sensitive field, at any depth, masked:
/// arrays and objects keep their shape and field names, a sensitive
/// field's value becomes its mask, and every other value stays as it is.
pub open spec fn sanitizes(v: JsonValue, r: JsonValue) -> bool
    decreases v,
{
    match v {
        JsonValue::Array(items) => r matches JsonValue::Array(out) && out@.len() == items@.len() && forall|
            i: int,
        |
            0 <= i < items@.len() ==> sanitizes(#[trigger] items@[i], out@[i]),
        JsonValue::Object(fields) => r matches JsonValue::Object(out) && out@.len() == fields@.len()
            && forall|i: int|
            0 <= i < fields@.len() ==> out@[i].0@ == (#[trigger] fields@[i]).0@ && if sensitive_name(
                lowercase(fields@[i].0@),
            ) {
                out@[i].1 matches JsonValue::Text(t) && t@ == masked(text_bytes(fields@[i].1))
            } else {
                sanitizes(fields@[i].1, out@[i].1)
            },
        _ => r == v,
    }
}

/// The mask of a sensitive field's value.
fn mask_json(v: &JsonValue) -> (r: JsonValue)
    requires
        text_bytes(*v) matches Some(b) ==> maskable(b),
    ensures
        r matches JsonValue::Text(t) && t@ == masked(text_bytes(*v)),
{
    match v {
        JsonValue::Text(t) => JsonValue::Text(mask_value(Some(t.as_str()))),
        _ => JsonValue::Text(mask_value(None)),
    }
}

/// The value written to logs in place of `value`: every field with a
/// sensitive name, at any depth, masked.
pub fn sanitize_json(value: &JsonValue) -> (r: JsonValue)
    requires
        mask_safe(*value),
    ensures
        sanitizes(*value, r),
    decreases value,
{
    match value {
        JsonValue::Null => JsonValue::Null,
        JsonValue::Bool(b) => JsonValue::Bool(*b),
        JsonValue::Number(n) => JsonValue::Number(n.clone()),
        JsonValue::Text(t) => JsonValue::Text(t.clone()),
        JsonValue::Array(items) => {
            let mut out: Vec<JsonValue> = Vec::new();
            let mut i: usize = 0;
            while i < items.len()
                invariant
                    *value == JsonValue::Array(*items),
                    i <= items@.len(),
                    out@.len() == i,
                    forall|j: int| 0 <= j < items@.len() ==> mask_safe(#[trigger] items@[j]),
                    forall|j: int| 0 <= j < i ==> sanitizes(#[trigger] items@[j], out@[j]),
                decreases items@.len() - i,
            {
                assert(mask_safe(items@[i as int]));
                proof {
                    assert(decreases_to!(*value => value->Array_0));
                    assert(decreases_to!(*items => items@));
                    assert(decreases_to!(items@ => items@[i as int]));
                }
                let s = sanitize_json(&items[i]);
                out.push(s);
                i = i + 1;
            }
            JsonValue::Array(out)
        },
        JsonValue::Object(fields) => {
            let mut out: Vec<(String, JsonValue)> = Vec::new();
            let mut i: usize = 0;
            while i < fields.len()
                invariant
                    *value == JsonValue::Object(*fields),
                    i <= fields@.len(),
                    out@.len() == i,
                    forall|j: int|
                        0 <= j < fields@.len() ==> if sensitive_name(lowercase((#[trigger] fields@[j]).0@)) {
                            text_bytes(fields@[j].1) matches Some(b) ==> maskable(b)
                        } else {
                            mask_safe(fields@[j].1)
                        },
                    forall|j: int|
                        0 <= j < i ==> out@[j].0@ == (#[trigger] fields@[j]).0@ && if sensitive_name(
                            lowercase(fields@[j].0@),
                        ) {
                            out@[j].1 matches JsonValue::Text(t) && t@ == masked(text_bytes(fields@[j].1))
                        } else {
                            sanitizes(fields@[j].1, out@[j].1)
                        },
                decreases fields@.len() - i,
            {
                let field = &fields[i];
                let ghost f = fields@[i as int];
                let name = field.0.clone();
                let v = if is_sensitive_field(field.0.as_str()) {
                    mask_json(&field.1)
                } else {
                    proof {
                        assert(decreases_to!(*value => value->Object_0));
                        assert(decreases_to!(*fields => fields@));
                        assert(decreases_to!(fields@ => fields@[i as int]));
                        assert(decreases_to!(fields@[i as int] => fields@[i as int].1));
                    }
                    sanitize_json(&field.1)
                };
                out.push((name, v));
                i = i + 1;
            }
            JsonValue::Object(out)
        },
    }
}

proof fn lemma_encode_concat(a: Seq<char>, b: Seq<char>)
    ensures
        encode_utf8(a + b) == encode_utf8(a) + encode_utf8(b),
    decreases a.len(),
{
    if a.len() == 0 {
        assert(a + b =~= b);
        assert(encode_utf8(a) + encode_utf8(b) =~= encode_utf8(b));
    } else {
        assert((a + b).drop_first() =~= a.drop_first() + b);
        lemma_encode_concat(a.drop_first(), b);
        assert(encode_utf8(a + b) =~= encode_utf8(a) + encode_utf8(b));
    }
}

proof fn lemma_mask_bytes()
    ensures
        encode_utf8("****"@) == seq![42u8, 42u8, 42u8, 42u8],
{
    reveal_strlit("****");
    assert(is_ascii_chars("****"@));
    is_ascii_chars_encode_utf8("****"@);
    assert(encode_utf8("****"@) =~= seq![42u8, 42u8, 42u8, 42u8]);
}

/// A masked text masks to itself, and can be masked.
proof fn lemma_mask_fixed(value: Option<Seq<u8>>)
    requires
        value matches Some(b) ==> valid_utf8(b) && maskable(b),
    ensures
        maskable(encode_utf8(masked(value))),
        masked(Some(encode_utf8(masked(value)))) == masked(value),
{
    lemma_mask_bytes();
    let m = masked(value);
    match value {
        Some(b) => {
            if b.len() > 8 {
                let n = b.len() as int;
                let head = b.subrange(0, 4);
                let tail = b.subrange(n - 4, n);
                valid_utf8_split(b, 4);
                valid_utf8_split(b, n - 4);
                assert(b.subrange(n - 4, b.len() as int) == tail);
                decode_utf8_encode_utf8(head);
                decode_utf8_encode_utf8(tail);
                lemma_encode_concat(decode_utf8(head), "****"@);
                lemma_encode_concat(decode_utf8(head) + "****"@, decode_utf8(tail));
                let e = encode_utf8(m);
                assert(e == head + seq![42u8, 42u8, 42u8, 42u8] + tail);
                assert(e.len() == 12);
                encode_utf8_valid_utf8(m);
                is_char_boundary_iff_not_is_continuation_byte(e, 4);
                is_char_boundary_iff_not_is_continuation_byte(e, 8);
                is_char_boundary_iff_not_is_continuation_byte(b, n - 4);
                assert(e[4] == 42u8);
                assert(!is_continuation_byte(42u8));
                assert(e[8] == b[n - 4]);
                assert(maskable(e));
                assert(e.subrange(0, 4) =~= head);
                assert(e.subrange(8, 12) =~= tail);
            } else {
                assert(encode_utf8(m).len() == 4);
            }
        },
        None => {
            assert(encode_utf8(m).len() == 4);
        },
    }
}

/// A sensitive field's masked text contains `****`, whatever its value
/// was.
pub proof fn lemma_mask_is_visible(value: Option<Seq<u8>>)
    ensures
        crate::text::has_infix(masked(value), "****"@),
{
    reveal_strlit("****");
    let m = masked(value);
    match value {
        Some(b) => {
            if b.len() > 8 {
                let i: int = decode_utf8(b.subrange(0, 4)).len() as int;
                assert(m.subrange(i, i + "****"@.len()) =~= "****"@);
            } else {
                assert(m.subrange(0int, 0int + "****"@.len()) =~= "****"@);
            }
        },
        None => {
            assert(m.subrange(0int, 0int + "****"@.len()) =~= "****"@);
        },
    }
}

/// Sanitizing leaves a non-sensitive text field of an object as it was.
pub proof fn lemma_plain_text_fields_kept(v: JsonValue, r: JsonValue, i: int)
    requires
        sanitizes(v, r),
        v matches JsonValue::Object(fields) && 0 <= i < fields@.len() && !sensitive_name(
            lowercase(fields@[i].0@),
        ) && fields@[i].1 is Text,
    ensures
        r matches JsonValue::Object(out) && out@[i].0@ == v->Object_0@[i].0@ && out@[i].1 == v->Object_0@[i].1,
{
    let fields = v->Object_0;
    assert(sanitizes(fields@[i].1, r->Object_0@[i].1));
}

/// Sanitizing a sanitized value changes nothing more: the result of
/// sanitizing can itself be sanitized, and is its own sanitized form.
pub proof fn lemma_sanitize_idempotent(v: JsonValue, r: JsonValue)
    requires
        mask_safe(v),
        sanitizes(v, r),
    ensures
        mask_safe(r),
        sanitizes(r, r),
    decreases v,
{
    match v {
        JsonValue::Array(items) => {
            let out = r->Array_0;
            assert forall|i: int| 0 <= i < out@.len() implies mask_safe(#[trigger] out@[i]) && sanitizes(
                out@[i],
                out@[i],
            ) by {
                assert(decreases_to!(v => v->Array_0));
                assert(decreases_to!(v->Array_0 => items@));
                assert(decreases_to!(items@ => items@[i]));
                lemma_sanitize_idempotent(items@[i], out@[i]);
            }
        },
        JsonValue::Object(fields) => {
            let out = r->Object_0;
            assert forall|i: int| 0 <= i < out@.len() implies {
                let f = #[trigger] out@[i];
                &&& if sensitive_name(lowercase(f.0@)) {
                    text_bytes(f.1) matches Some(b) ==> maskable(b)
                } else {
                    mask_safe(f.1)
                }
                &&& f.0@ == f.0@ && if sensitive_name(lowercase(f.0@)) {
                    f.1 matches JsonValue::Text(t) && t@ == masked(text_bytes(f.1))
                } else {
                    sanitizes(f.1, f.1)
                }
            } by {
                let g = fields@[i];
                assert(out@[i].0@ == g.0@);
                if sensitive_name(lowercase(g.0@)) {
                    match text_bytes(g.1) {
                        Some(b) => {
                            encode_utf8_valid_utf8(g.1->Text_0@);
                        },
                        None => {},
                    }
                    lemma_mask_fixed(text_bytes(g.1));
                    let t = out@[i].1->Text_0;
                    encode_utf8_decode_utf8(t@);
                } else {
                    assert(decreases_to!(v => v->Object_0));
                    assert(decreases_to!(v->Object_0 => fields@));
                    assert(decreases_to!(fields@ => fields@[i]));
                    assert(decreases_to!(fields@[i] => fields@[i].1));
                    lemma_sanitize_idempotent(g.1, out@[i].1);
                }
            }
        },
        _ => {},
    }
}

} // verus!
