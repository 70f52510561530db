//! Validation of request fields: sanitizing free text, required and
//! bounded fields, enumerations, Stellar account addresses and asset codes.

pub mod state_machine;
pub mod state_transitions;

use vstd::prelude::*;

use bigdecimal::BigDecimal;

use crate::decimal::{decimal_is_positive, is_positive};
use crate::telemetry::input_validation::byte_len;
use crate::text::{chars_of, concat, decimal, decimal_string, owned, push_char, str_eq};

verus! {

/// Length of a Stellar account address.
pub const STELLAR_ACCOUNT_LEN: usize = 56;

/// Longest asset code.
pub const ASSET_CODE_MAX_LEN: usize = 12;

/// Longest anchor transaction identifier.
pub const ANCHOR_TRANSACTION_ID_MAX_LEN: usize = 255;

/// Longest callback type.
pub const CALLBACK_TYPE_MAX_LEN: usize = 20;

/// Longest callback status.
pub const CALLBACK_STATUS_MAX_LEN: usize = 20;

/// Longest textual amount accepted as input.
pub const AMOUNT_INPUT_MAX_LEN: usize = 64;

/// The only asset code accepted.
pub const ALLOWED_ASSET_CODE: &'static str = "USD";

/// A payload whose fields are exactly those of `T`.
#[derive(Debug)]
pub struct StrictPayload<T> {
    pub data: T,
}

/// A field that failed validation, and why.
#[derive(Debug, Clone, PartialEq, Eq)]
pub struct ValidationError {
    pub field: &'static str,
    pub message: String,
}

/// The message a validation error displays: `field: message`.
pub open spec fn validation_message(field: Seq<char>, message: Seq<char>) -> Seq<char> {
    field + ": "@ + message
}

impl ValidationError {
    /// An error on `field` with `message`.
    pub fn new(field: &'static str, message: String) -> (e: Self)
        ensures
            e.field@ == field@,
            e.message@ == message@,
    {
        ValidationError { field, message }
    }

    /// The message this error displays.
    pub fn to_string(&self) -> (s: String)
        ensures
            s@ == validation_message(self.field@, self.message@),
    {
        let a = concat(self.field, ": ");
        concat(a.as_str(), self.message.as_str())
    }
}

/// Outcome of a validation.
pub type ValidationResult = Result<(), ValidationError>;

/// The result owed: `Ok` when `err` is `None`, else an error on `field`
/// with message `err`.
pub open spec fn result_is(r: ValidationResult, field: Seq<char>, err: Option<Seq<char>>) -> bool {
    match err {
        None => r is Ok,
        Some(m) => r matches Err(e) && e.field@ == field && e.message@ == m,
    }
}

/// A Unicode control character (general category Cc).
pub open spec fn is_control_char(c: char) -> bool {
    (c as u32) <= 0x1F || (0x7F <= (c as u32) && (c as u32) <= 0x9F)
}

/// A character with the Unicode `White_Space` property.
pub open spec fn is_whitespace_char(c: char) -> bool {
    let u = c as u32;
    ||| 0x09 <= u <= 0x0D
    ||| u == 0x20
    ||| u == 0x85
    ||| u == 0xA0
    ||| u == 0x1680
    ||| 0x2000 <= u <= 0x200A
    ||| u == 0x2028
    ||| u == 0x2029
    ||| u == 0x202F
    ||| u == 0x205F
    ||| u == 0x3000
}

/// An ASCII uppercase letter or digit.
pub open spec fn is_upper_or_digit(c: char) -> bool {
    ('A' <= c && c <= 'Z') || ('0' <= c && c <= '9')
}

/// Whether `c` is a control character.
pub fn char_is_control(c: char) -> (r: bool)
    ensures
        r == is_control_char(c),
{
    let u = c as u32;
    u <= 0x1F || (0x7F <= u && u <= 0x9F)
}

/// Whether `c` is white space.
pub fn char_is_whitespace(c: char) -> (r: bool)
    ensures
        r == is_whitespace_char(c),
{
    let u = c as u32;
    (0x09 <= u && u <= 0x0D) || u == 0x20 || u == 0x85 || u == 0xA0 || u == 0x1680 || (0x2000 <= u && u
        <= 0x200A) || u == 0x2028 || u == 0x2029 || u == 0x202F || u == 0x205F || u == 0x3000
}

fn char_is_upper_or_digit(c: char) -> (r: bool)
    ensures
        r == is_upper_or_digit(c),
{
    ('A' <= c && c <= 'Z') || ('0' <= c && c <= '9')
}

/// What sanitizing keeps of `c`: a control character that is white space
/// becomes a space, any other control character is dropped, the rest stays.
pub open spec fn clean_char(c: char) -> Option<char> {
    if is_control_char(c) {
        if is_whitespace_char(c) {
            Some(' ')
        } else {
            None
        }
    } else {
        Some(c)
    }
}

/// Sanitizing state after a prefix: the text so far, and whether white
/// space was seen since its last word.
pub open spec fn sanitize_state(s: Seq<char>) -> (Seq<char>, bool)
    decreases s.len(),
{
    if s.len() == 0 {
        (Seq::empty(), false)
    } else {
        let (out, pending) = sanitize_state(s.drop_last());
        match clean_char(s.last()) {
            None => (out, pending),
            Some(d) => if is_whitespace_char(d) {
                (out, out.len() > 0)
            } else if pending {
                (out.push(' ').push(d), false)
            } else {
                (out.push(d), false)
            },
        }
    }
}

/// `s` with control characters removed (white-space ones turned into
/// spaces), its words separated by single spaces, and no leading or trailing
/// white space.
pub open spec fn sanitized(s: Seq<char>) -> Seq<char> {
    sanitize_state(s).0
}

/// Text that sanitizing leaves as it is: no control character, no white
/// space but single spaces between words.
pub open spec fn is_clean(s: Seq<char>) -> bool {
    &&& forall|i: int| 0 <= i < s.len() ==> !is_control_char(#[trigger] s[i])
    &&& forall|i: int| 0 <= i < s.len() && is_whitespace_char(#[trigger] s[i]) ==> s[i] == ' '
    &&& s.len() > 0 ==> s[0] != ' ' && s.last() != ' '
    &&& forall|i: int| 0 <= i < s.len() - 1 && #[trigger] s[i] == ' ' ==> s[i + 1] != ' '
}

/// What the sanitizing state keeps true of its text.
proof fn lemma_sanitize_state_clean(s: Seq<char>)
    ensures
        is_clean(sanitize_state(s).0),
        sanitize_state(s).1 ==> sanitize_state(s).0.len() > 0,
    decreases s.len(),
{
    if s.len() > 0 {
        lemma_sanitize_state_clean(s.drop_last());
        let (out, pending) = sanitize_state(s.drop_last());
        match clean_char(s.last()) {
            None => {},
            Some(d) => {
                if !is_whitespace_char(d) {
                    let r = sanitize_state(s).0;
                    if pending {
                        assert(r == out.push(' ').push(d));
                        assert forall|i: int| 0 <= i < r.len() - 1 && #[trigger] r[i] == ' ' implies r[i + 1] != ' ' by {
                            if i < out.len() - 1 {
                                assert(r[i] == out[i] && r[i + 1] == out[i + 1]);
                            }
                        }
                        assert forall|i: int| 0 <= i < r.len() && is_whitespace_char(#[trigger] r[i]) implies r[i] == ' ' by {
                            if i < out.len() {
                                assert(r[i] == out[i]);
                            }
                        }
                        assert forall|i: int| 0 <= i < r.len() implies !is_control_char(#[trigger] r[i]) by {
                            if i < out.len() {
                                assert(r[i] == out[i]);
                            }
                        }
                    } else {
                        assert(r == out.push(d));
                        assert forall|i: int| 0 <= i < r.len() - 1 && #[trigger] r[i] == ' ' implies r[i + 1] != ' ' by {
                            if i < out.len() - 1 {
                                assert(r[i] == out[i] && r[i + 1] == out[i + 1]);
                            }
                        }
                        assert forall|i: int| 0 <= i < r.len() && is_whitespace_char(#[trigger] r[i]) implies r[i] == ' ' by {
                            if i < out.len() {
                                assert(r[i] == out[i]);
                            }
                        }
                        assert forall|i: int| 0 <= i < r.len() implies !is_control_char(#[trigger] r[i]) by {
                            if i < out.len() {
                                assert(r[i] == out[i]);
                            }
                        }
                    }
                }
            },
        }
    }
}

/// On clean text, the sanitizing state after `k` characters holds the
/// first `k` characters, less a trailing space that is pending.
proof fn lemma_sanitize_state_of_clean(s: Seq<char>, k: int)
    requires
        is_clean(s),
        0 <= k <= s.len(),
    ensures
        sanitize_state(s.take(k)) == if k > 0 && s[k - 1] == ' ' {
            (s.take(k - 1), true)
        } else {
            (s.take(k), false)
        },
    decreases k,
{
    if k > 0 {
        lemma_sanitize_state_of_clean(s, k - 1);
        assert(s.take(k).drop_last() =~= s.take(k - 1));
        let c = s[k - 1];
        assert(s.take(k).last() == c);
        assert(!is_control_char(c));
        if c == ' ' {
            if k - 1 > 0 {
                assert(s[k - 2] != ' ');
            }
        } else {
            assert(!is_whitespace_char(c));
            if k - 1 > 0 && s[k - 2] == ' ' {
                assert(s.take(k - 2).push(' ').push(c) =~= s.take(k));
            } else {
                assert(s.take(k - 1).push(c) =~= s.take(k));
            }
        }
    }
}

/// Sanitized text is clean: it holds no control character, no white space
/// but single spaces, and no leading or trailing space.
pub proof fn lemma_sanitized_is_clean(s: Seq<char>)
    ensures
        is_clean(sanitized(s)),
{
    lemma_sanitize_state_clean(s);
}

/// Sanitizing is idempotent: sanitizing sanitized text changes nothing.
pub proof fn lemma_sanitize_idempotent(s: Seq<char>)
    ensures
        sanitized(sanitized(s)) == sanitized(s),
{
    let t = sanitized(s);
    lemma_sanitize_state_clean(s);
    lemma_sanitize_state_of_clean(t, t.len() as int);
    assert(t.take(t.len() as int) =~= t);
}

/// `s` with each character replaced as [`clean_char`] says: control
/// characters that are white space become spaces, other control characters
/// are dropped.
pub open spec fn cleaned(s: Seq<char>) -> Seq<char>
    decreases s.len(),
{
    if s.len() == 0 {
        Seq::empty()
    } else {
        match clean_char(s.last()) {
            None => cleaned(s.drop_last()),
            Some(d) => cleaned(s.drop_last()).push(d),
        }
    }
}

/// The words of `t`: its maximal runs of characters that are not white
/// space, in order.
pub open spec fn words(t: Seq<char>) -> Seq<Seq<char>>
    decreases t.len(),
{
    if t.len() == 0 {
        Seq::empty()
    } else {
        let w = words(t.drop_last());
        let c = t.last();
        if is_whitespace_char(c) {
            w
        } else if t.len() >= 2 && !is_whitespace_char(t[t.len() - 2]) && w.len() > 0 {
            w.update(w.len() - 1, w.last().push(c))
        } else {
            w.push(seq![c])
        }
    }
}

proof fn lemma_words_nonempty(t: Seq<char>)
    ensures
        forall|i: int| 0 <= i < words(t).len() ==> (#[trigger] words(t)[i]).len() > 0,
        t.len() > 0 && !is_whitespace_char(t.last()) ==> words(t).len() > 0,
    decreases t.len(),
{
    if t.len() > 0 {
        lemma_words_nonempty(t.drop_last());
        let w = words(t.drop_last());
        let c = t.last();
        if !is_whitespace_char(c) {
            if t.len() >= 2 && !is_whitespace_char(t[t.len() - 2]) && w.len() > 0 {
                let w2 = words(t);
                assert forall|i: int| 0 <= i < w2.len() implies (#[trigger] w2[i]).len() > 0 by {
                    if i < w.len() - 1 {
                        assert(w2[i] == w[i]);
                    }
                }
            } else {
                let w2 = words(t);
                assert forall|i: int| 0 <= i < w2.len() implies (#[trigger] w2[i]).len() > 0 by {
                    if i < w.len() {
                        assert(w2[i] == w[i]);
                    }
                }
            }
        }
    }
}

proof fn lemma_joined_len(items: Seq<Seq<char>>)
    requires
        forall|i: int| 0 <= i < items.len() ==> (#[trigger] items[i]).len() > 0,
    ensures
        joined(items, " "@).len() > 0 <==> items.len() > 0,
    decreases items.len(),
{
    if items.len() > 1 {
        lemma_joined_len(items.drop_last());
    }
}

/// The sanitizing state after `s`, read over the cleaned text: the text so
/// far is its words joined by single spaces, and a space is pending exactly
/// when white space follows a word.
proof fn lemma_sanitize_state_words(s: Seq<char>)
    ensures
        sanitize_state(s).0 == joined(words(cleaned(s)), " "@),
        sanitize_state(s).1 <==> (words(cleaned(s)).len() > 0 && is_whitespace_char(cleaned(s).last())),
        cleaned(s).len() > 0 && !is_whitespace_char(cleaned(s).last()) ==> words(cleaned(s)).len() > 0,
    decreases s.len(),
{
    reveal_strlit(" ");
    if s.len() > 0 {
        lemma_sanitize_state_words(s.drop_last());
        let t = cleaned(s.drop_last());
        let w = words(t);
        lemma_words_nonempty(t);
        lemma_joined_len(w);
        let (out, pending) = sanitize_state(s.drop_last());
        match clean_char(s.last()) {
            None => {},
            Some(d) => {
                let t2 = t.push(d);
                assert(cleaned(s) == t2);
                assert(t2.drop_last() =~= t);
                assert(t2.last() == d);
                if is_whitespace_char(d) {
                    assert(words(t2) == w);
                } else if pending {
                    assert(t.len() > 0 && is_whitespace_char(t.last()));
                    assert(t2[t2.len() - 2] == t.last());
                    assert(words(t2) == w.push(seq![d]));
                    assert(w.push(seq![d]).drop_last() =~= w);
                    assert(joined(w.push(seq![d]), " "@) == joined(w, " "@) + " "@ + seq![d]);
                    assert(out.push(' ').push(d) =~= out + " "@ + seq![d]);
                } else if w.len() > 0 {
                    assert(t.len() > 0);
                    assert(!is_whitespace_char(t.last()));
                    assert(t2[t2.len() - 2] == t.last());
                    let w2 = w.update(w.len() - 1, w.last().push(d));
                    assert(words(t2) == w2);
                    if w.len() == 1 {
                        assert(joined(w2, " "@) == w2[0]);
                        assert(joined(w, " "@) == w[0]);
                    } else {
                        assert(w2.drop_last() =~= w.drop_last());
                        assert(joined(w2, " "@) =~= joined(w, " "@).push(d));
                    }
                } else {
                    assert(words(t2) == w.push(seq![d]));
                    assert(w.push(seq![d]).len() == 1);
                    assert(out.len() == 0);
                    assert(joined(w.push(seq![d]), " "@) == seq![d]);
                    assert(out.push(d) =~= seq![d]);
                }
            },
        }
    }
}

/// Sanitized text is the words of the cleaned text joined by single
/// spaces: control characters go (white-space ones count as spaces), and
/// the text is split at white space and joined again with `" "`.
pub proof fn lemma_sanitized_is_joined_words(s: Seq<char>)
    ensures
        sanitized(s) == joined(words(cleaned(s)), " "@),
{
    lemma_sanitize_state_words(s);
}

/// Removes control characters (turning white-space ones into spaces),
/// collapses runs of white space into single spaces and trims both ends.
pub fn sanitize_string(value: &str) -> (r: String)
    ensures
        r@ == sanitized(value@),
{
    let chars = chars_of(value);
    let mut out = String::new();
    let mut pending = false;
    let mut has_text = false;
    let mut i: usize = 0;
    while i < chars.len()
        invariant
            i <= chars.len(),
            chars@ == value@,
            has_text == (out@.len() > 0),
            (out@, pending) == sanitize_state(value@.take(i as int)),
        decreases chars.len() - i,
    {
        let c = chars[i];
        proof {
            assert(value@.take(i + 1).drop_last() =~= value@.take(i as int));
            assert(value@.take(i + 1).last() == c);
        }
        let ctrl = char_is_control(c);
        if !ctrl || char_is_whitespace(c) {
            let d = if ctrl {
                ' '
            } else {
                c
            };
            if char_is_whitespace(d) {
                pending = has_text;
            } else {
                if pending {
                    push_char(&mut out, ' ');
                }
                push_char(&mut out, d);
                pending = false;
                has_text = true;
            }
        }
        i = i + 1;
    }
    proof {
        assert(value@.take(chars.len() as int) =~= value@);
    }
    out
}


/// Every character of `s` is white space (so `s` trims to nothing).
pub open spec fn all_whitespace(s: Seq<char>) -> bool {
    forall|i: int| 0 <= i < s.len() ==> is_whitespace_char(#[trigger] s[i])
}

/// Every character of `s` is an ASCII uppercase letter or digit.
pub open spec fn all_upper_or_digit(s: Seq<char>) -> bool {
    forall|i: int| 0 <= i < s.len() ==> is_upper_or_digit(#[trigger] s[i])
}

/// The texts of a slice of strings.
pub open spec fn strs_view(v: Seq<&str>) -> Seq<Seq<char>> {
    v.map_values(|s: &str| s@)
}

/// `items` joined with `sep` between consecutive items.
pub open spec fn joined(items: Seq<Seq<char>>, sep: Seq<char>) -> Seq<char>
    decreases items.len(),
{
    if items.len() == 0 {
        Seq::empty()
    } else if items.len() == 1 {
        items[0]
    } else {
        joined(items.drop_last(), sep) + sep + items.last()
    }
}

/// Whether `value` is empty or only white space (trims to nothing).
pub fn is_blank(value: &str) -> (r: bool)
    ensures
        r == all_whitespace(value@),
{
    let chars = chars_of(value);
    let mut i: usize = 0;
    while i < chars.len()
        invariant
            i <= chars.len(),
            chars@ == value@,
            forall|j: int| 0 <= j < i ==> is_whitespace_char(#[trigger] value@[j]),
        decreases chars.len() - i,
    {
        if !char_is_whitespace(chars[i]) {
            return false;
        }
        i = i + 1;
    }
    true
}

fn is_all_upper_or_digit(value: &str) -> (r: bool)
    ensures
        r == all_upper_or_digit(value@),
{
    let chars = chars_of(value);
    let mut i: usize = 0;
    while i < chars.len()
        invariant
            i <= chars.len(),
            chars@ == value@,
            forall|j: int| 0 <= j < i ==> is_upper_or_digit(#[trigger] value@[j]),
        decreases chars.len() - i,
    {
        if !char_is_upper_or_digit(chars[i]) {
            return false;
        }
        i = i + 1;
    }
    true
}

/// The error owed by [`validate_required`].
pub open spec fn required_error(value: Seq<char>) -> Option<Seq<char>> {
    if all_whitespace(value) {
        Some("must not be empty"@)
    } else {
        None
    }
}

/// Fails when `value` is empty or only white space.
pub fn validate_required(field: &'static str, value: &str) -> (r: ValidationResult)
    ensures
        result_is(r, field@, required_error(value@)),
{
    if is_blank(value) {
        return Err(ValidationError::new(field, owned("must not be empty")));
    }
    Ok(())
}

/// The error owed by [`validate_max_len`].
pub open spec fn max_len_error(value: Seq<char>, max_len: usize) -> Option<Seq<char>> {
    if byte_len(value) > max_len {
        Some("must be at most "@ + decimal(max_len as nat) + " characters"@)
    } else {
        None
    }
}

/// Fails when `value` is longer than `max_len` bytes.
pub fn validate_max_len(field: &'static str, value: &str, max_len: usize) -> (r: ValidationResult)
    ensures
        result_is(r, field@, max_len_error(value@, max_len)),
{
    if value.len() > max_len {
        let n = decimal_string(max_len as u64);
        let a = concat("must be at most ", n.as_str());
        return Err(ValidationError::new(field, concat(a.as_str(), " characters")));
    }
    Ok(())
}

/// The error owed by [`validate_enum`].
pub open spec fn enum_error(value: Seq<char>, allowed: Seq<Seq<char>>) -> Option<Seq<char>> {
    if allowed.contains(value) {
        None
    } else {
        Some("must be one of: "@ + joined(allowed, ", "@))
    }
}

fn join_strs(items: &[&str], sep: &str) -> (r: String)
    ensures
        r@ == joined(strs_view(items@), sep@),
{
    let mut r = String::new();
    let mut i: usize = 0;
    while i < items.len()
        invariant
            i <= items.len(),
            r@ == joined(strs_view(items@).take(i as int), sep@),
        decreases items.len() - i,
    {
        proof {
            assert(strs_view(items@).take(i + 1).drop_last() =~= strs_view(items@).take(i as int));
        }
        if i == 0 {
            r = owned(items[0]);
            proof {
                assert(strs_view(items@).take(1) =~= seq![items@[0]@]);
            }
        } else {
            let a = concat(r.as_str(), sep);
            r = concat(a.as_str(), items[i]);
        }
        i = i + 1;
    }
    proof {
        assert(strs_view(items@).take(items.len() as int) =~= strs_view(items@));
    }
    r
}

/// Fails when `value` is none of `allowed`.
pub fn validate_enum(field: &'static str, value: &str, allowed: &[&str]) -> (r: ValidationResult)
    ensures
        result_is(r, field@, enum_error(value@, strs_view(allowed@))),
{
    let mut i: usize = 0;
    while i < allowed.len()
        invariant
            i <= allowed.len(),
            forall|j: int| 0 <= j < i ==> allowed@[j]@ != value@,
        decreases allowed.len() - i,
    {
        if str_eq(value, allowed[i]) {
            proof {
                assert(strs_view(allowed@)[i as int] == value@);
            }
            return Ok(());
        }
        i = i + 1;
    }
    proof {
        if strs_view(allowed@).contains(value@) {
            let j = choose|j: int| 0 <= j < strs_view(allowed@).len() && strs_view(allowed@)[j] == value@;
            assert(allowed@[j]@ == value@);
        }
    }
    let list = join_strs(allowed, ", ");
    Err(ValidationError::new(field, concat("must be one of: ", list.as_str())))
}

/// Whether `s` holds a control character that is not white space.
pub open spec fn has_stray_control(s: Seq<char>) -> bool {
    exists|i: int| 0 <= i < s.len() && is_control_char(#[trigger] s[i]) && !is_whitespace_char(s[i])
}

/// Whether `s` holds a control character that is not white space.
fn holds_stray_control(s: &str) -> (r: bool)
    ensures
        r == has_stray_control(s@),
{
    let chars = chars_of(s);
    let mut i: usize = 0;
    while i < chars.len()
        invariant
            i <= chars@.len(),
            chars@ == s@,
            forall|j: int| 0 <= j < i ==> !(is_control_char(#[trigger] s@[j]) && !is_whitespace_char(s@[j])),
        decreases chars@.len() - i,
    {
        if char_is_control(chars[i]) && !char_is_whitespace(chars[i]) {
            return true;
        }
        i = i + 1;
    }
    false
}

/// The error owed by [`validate_stellar_address`]: an address holding a
/// control character other than white space is refused outright; any
/// other is checked once sanitized.
pub open spec fn stellar_address_error(address: Seq<char>) -> Option<Seq<char>> {
    let s = sanitized(address);
    if has_stray_control(address) {
        Some("must not contain control characters"@)
    } else if all_whitespace(s) {
        Some("must not be empty"@)
    } else if byte_len(s) != STELLAR_ACCOUNT_LEN {
        Some("must be exactly 56 characters"@)
    } else if s[0] != 'G' {
        Some("must start with 'G'"@)
    } else if !all_upper_or_digit(s) {
        Some("must contain only uppercase letters and digits"@)
    } else {
        None
    }
}

/// Checks a Stellar account address: it holds no control character other
/// than white space and, once sanitized, it is 56 characters, starts with
/// `G` and holds only uppercase letters and digits.
pub fn validate_stellar_address(stellar_address: &str) -> (r: ValidationResult)
    ensures
        result_is(r, "stellar_address"@, stellar_address_error(stellar_address@)),
{
    if holds_stray_control(stellar_address) {
        return Err(ValidationError::new("stellar_address", owned("must not contain control characters")));
    }
    let s = sanitize_string(stellar_address);
    if is_blank(s.as_str()) {
        return Err(ValidationError::new("stellar_address", owned("must not be empty")));
    }
    if s.as_str().len() != STELLAR_ACCOUNT_LEN {
        let n = decimal_string(STELLAR_ACCOUNT_LEN as u64);
        proof {
            reveal_strlit("must be exactly ");
            reveal_strlit(" characters");
            reveal_strlit("must be exactly 56 characters");
            assert(decimal(56) =~= seq!['5', '6']) by {
                reveal_with_fuel(decimal, 3);
            }
        }
        let a = concat("must be exactly ", n.as_str());
        let m = concat(a.as_str(), " characters");
        proof {
            assert(m@ =~= "must be exactly 56 characters"@);
        }
        return Err(ValidationError::new("stellar_address", m));
    }
    let chars = chars_of(s.as_str());
    if chars[0] != 'G' {
        return Err(ValidationError::new("stellar_address", owned("must start with 'G'")));
    }
    if !is_all_upper_or_digit(s.as_str()) {
        return Err(
            ValidationError::new("stellar_address", owned("must contain only uppercase letters and digits")),
        );
    }
    Ok(())
}

/// Checks a Stellar account address (see [`validate_stellar_address`]).
pub fn validate_stellar_account(account: &str) -> (r: ValidationResult)
    ensures
        result_is(r, "stellar_address"@, stellar_address_error(account@)),
{
    validate_stellar_address(account)
}

/// The error owed by [`validate_asset_code`], on the sanitized code.
pub open spec fn asset_code_error(code: Seq<char>) -> Option<Seq<char>> {
    let s = sanitized(code);
    if all_whitespace(s) {
        Some("must not be empty"@)
    } else if byte_len(s) > ASSET_CODE_MAX_LEN {
        Some("must be at most "@ + decimal(ASSET_CODE_MAX_LEN as nat) + " characters"@)
    } else if !all_upper_or_digit(s) {
        Some("must contain only uppercase letters and digits"@)
    } else if s != ALLOWED_ASSET_CODE@ {
        Some("must be one of: "@ + ALLOWED_ASSET_CODE@)
    } else {
        None
    }
}

/// Checks an asset code: once sanitized, it is non-empty, at most 12
/// characters of uppercase letters and digits, and an allowed code.
pub fn validate_asset_code(asset_code: &str) -> (r: ValidationResult)
    ensures
        result_is(r, "asset_code"@, asset_code_error(asset_code@)),
{
    let s = sanitize_string(asset_code);
    let r1 = validate_required("asset_code", s.as_str());
    if r1.is_err() {
        return r1;
    }
    let r2 = validate_max_len("asset_code", s.as_str(), ASSET_CODE_MAX_LEN);
    if r2.is_err() {
        return r2;
    }
    if !is_all_upper_or_digit(s.as_str()) {
        return Err(ValidationError::new("asset_code", owned("must contain only uppercase letters and digits")));
    }
    let allowed: [&str; 1] = [ALLOWED_ASSET_CODE];
    let r3 = validate_enum("asset_code", s.as_str(), &allowed);
    proof {
        assert(strs_view(allowed@) =~= seq![ALLOWED_ASSET_CODE@]);
        assert(seq![ALLOWED_ASSET_CODE@].contains(s@) <==> s@ == ALLOWED_ASSET_CODE@) by {
            if seq![ALLOWED_ASSET_CODE@].contains(s@) {
                let j = choose|j: int| 0 <= j < 1 && seq![ALLOWED_ASSET_CODE@][j] == s@;
            }
            if s@ == ALLOWED_ASSET_CODE@ {
                assert(seq![ALLOWED_ASSET_CODE@][0] == s@);
            }
        }
    }
    r3
}


/// The error owed by [`validate_positive_amount`], given whether the amount
/// is positive.
pub open spec fn positive_amount_error(positive: bool) -> Option<Seq<char>> {
    if positive {
        None
    } else {
        Some("must be greater than zero"@)
    }
}

/// The outcome of the amount check, given whether the amount is positive.
pub fn positive_amount_result(positive: bool) -> (r: ValidationResult)
    ensures
        result_is(r, "amount"@, positive_amount_error(positive)),
{
    if positive {
        Ok(())
    } else {
        Err(ValidationError::new("amount", owned("must be greater than zero")))
    }
}

/// Fails unless `amount` is greater than zero.
pub fn validate_positive_amount(amount: &BigDecimal) -> (r: ValidationResult)
    ensures
        result_is(r, "amount"@, positive_amount_error(decimal_is_positive(*amount))),
{
    positive_amount_result(is_positive(amount))
}

} // verus!
