//! Horizon API records and the decisions of the payment stream: assembling
//! the data of server-sent events, splitting the stream buffer into events,
//! and the reconnection backoff.

use std::time::Instant;
use vstd::prelude::*;

use crate::text::{
    chars_of, concat, has_prefix, owned, push_char, trim_trailing_slashes, without_trailing_slashes,
};
use crate::validation::{char_is_whitespace, is_whitespace_char};

verus! {

/// An account as Horizon describes it.
#[derive(Debug, Clone)]
pub struct AccountResponse {
    pub id: String,
    pub account_id: String,
    pub balances: Vec<Balance>,
    pub sequence: String,
    pub subentry_count: i32,
    pub home_domain: Option<String>,
    pub last_modified_ledger: i64,
    pub last_modified_time: String,
}

/// One balance of an account.
#[derive(Debug, Clone)]
pub struct Balance {
    pub balance: String,
    pub limit: Option<String>,
    pub asset_type: String,
    pub asset_code: Option<String>,
    pub asset_issuer: Option<String>,
}

/// A payment delivered by the payment stream.
#[derive(Debug, Clone)]
pub struct StreamPayment {
    pub id: String,
    pub from: String,
    pub to: String,
    pub amount: String,
    pub asset_code: String,
    pub memo: Option<String>,
    pub memo_type: Option<String>,
    pub created_at: String,
}

/// Counters of a payment stream.
#[derive(Debug, Clone, Copy)]
pub struct StreamMetrics {
    pub reconnections: u64,
    pub events_received: u64,
    pub last_event_time: Option<Instant>,
}

/// `s` without its leading white space.
pub open spec fn trim_start(s: Seq<char>) -> Seq<char>
    decreases s.len(),
{
    if s.len() > 0 && is_whitespace_char(s[0]) {
        trim_start(s.drop_first())
    } else {
        s
    }
}

/// The data a line of an event contributes: what follows `data: `, or
/// what follows `data:` with leading white space removed; nothing for any
/// other line (comments, heartbeats, other fields).
pub open spec fn line_data(line: Seq<char>) -> Seq<char> {
    if has_prefix(line, "data: "@) {
        line.skip(6)
    } else if has_prefix(line, "data:"@) {
        trim_start(line.skip(5))
    } else {
        Seq::empty()
    }
}

/// A line ended by `\n`, without the `\r` of a `\r\n` ending.
pub open spec fn strip_cr(line: Seq<char>) -> Seq<char> {
    if line.len() > 0 && line.last() == '\r' {
        line.drop_last()
    } else {
        line
    }
}

/// Reading an event's text up to a point: the data of its finished lines,
/// and the line being read.
pub open spec fn sse_state(s: Seq<char>) -> (Seq<char>, Seq<char>)
    decreases s.len(),
{
    if s.len() == 0 {
        (Seq::empty(), Seq::empty())
    } else {
        let (data, cur) = sse_state(s.drop_last());
        if s.last() == '\n' {
            (data + line_data(strip_cr(cur)), Seq::empty())
        } else {
            (data, cur.push(s.last()))
        }
    }
}

/// The data of an event: the data of its lines (as `str::lines` splits
/// them), concatenated in order.
pub open spec fn sse_data(s: Seq<char>) -> Seq<char> {
    sse_state(s).0 + line_data(sse_state(s).1)
}

fn trimmed_start_from(v: &Vec<char>, from: usize) -> (r: usize)
    requires
        from <= v@.len(),
    ensures
        from <= r <= v@.len(),
        trim_start(v@.skip(from as int)) == v@.skip(r as int),
    decreases v@.len() - from,
{
    if from < v.len() && char_is_whitespace(v[from]) {
        proof {
            assert(v@.skip(from as int).drop_first() =~= v@.skip(from + 1));
        }
        trimmed_start_from(v, from + 1)
    } else {
        from
    }
}

fn line_prefix(line: &Vec<char>, p: &str) -> (r: bool)
    ensures
        r == has_prefix(line@, p@),
{
    let pv = chars_of(p);
    if pv.len() > line.len() {
        return false;
    }
    let mut j: usize = 0;
    while j < pv.len()
        invariant
            pv@ == p@,
            pv@.len() <= line@.len(),
            j <= pv@.len(),
            forall|k: int| 0 <= k < j ==> line@[k] == pv@[k],
        decreases pv@.len() - j,
    {
        if line[j] != pv[j] {
            assert(line@.subrange(0, pv@.len() as int)[j as int] != p@[j as int]);
            return false;
        }
        j = j + 1;
    }
    assert(line@.subrange(0, pv@.len() as int) =~= p@);
    true
}

fn append_from(data: &mut String, line: &Vec<char>, from: usize)
    requires
        from <= line@.len(),
    ensures
        final(data)@ == old(data)@ + line@.skip(from as int),
{
    let mut k = from;
    while k < line.len()
        invariant
            from <= k <= line@.len(),
            data@ == old(data)@ + line@.subrange(from as int, k as int),
        decreases line@.len() - k,
    {
        push_char(data, line[k]);
        k = k + 1;
        assert(data@ =~= old(data)@ + line@.subrange(from as int, k as int));
    }
    assert(line@.subrange(from as int, k as int) =~= line@.skip(from as int));
}

fn append_line_data(data: &mut String, line: &Vec<char>)
    ensures
        final(data)@ == old(data)@ + line_data(line@),
{
    if line_prefix(line, "data: ") {
        proof {
            reveal_strlit("data: ");
        }
        append_from(data, line, 6);
    } else if line_prefix(line, "data:") {
        proof {
            reveal_strlit("data:");
        }
        let start = trimmed_start_from(line, 5);
        append_from(data, line, start);
    } else {
        assert(old(data)@ + line_data(line@) =~= old(data)@);
    }
}

/// The data of a raw event block (the text between two blank-line
/// delimiters): the `data:` fields of its lines, concatenated in order.
/// Heartbeats and comment-only events have none.
pub fn parse_sse_event(raw_event: &str) -> (data: String)
    ensures
        data@ == sse_data(raw_event@),
{
    let chars = chars_of(raw_event);
    let mut data = String::new();
    let mut cur: Vec<char> = Vec::new();
    let mut i: usize = 0;
    while i < chars.len()
        invariant
            i <= chars@.len(),
            chars@ == raw_event@,
            (data@, cur@) == sse_state(raw_event@.take(i as int)),
        decreases chars@.len() - i,
    {
        let c = chars[i];
        proof {
            assert(raw_event@.take(i + 1).drop_last() =~= raw_event@.take(i as int));
            assert(raw_event@.take(i + 1).last() == c);
        }
        if c == '\n' {
            if cur.len() > 0 && cur[cur.len() - 1] == '\r' {
                let ghost before = cur@;
                cur.pop();
                proof {
                    assert(cur@ =~= before.drop_last());
                }
            }
            append_line_data(&mut data, &cur);
            cur = Vec::new();
        } else {
            cur.push(c);
        }
        i = i + 1;
    }
    proof {
        assert(raw_event@.take(chars@.len() as int) =~= raw_event@);
    }
    append_line_data(&mut data, &cur);
    data
}

/// The complete events of a stream buffer and what is left of it: an
/// event ends at a blank line (two line feeds in a row), which is dropped.
pub open spec fn sse_frames(s: Seq<char>) -> (Seq<Seq<char>>, Seq<char>)
    decreases s.len(),
{
    if s.len() == 0 {
        (seq![], seq![])
    } else {
        let (events, cur) = sse_frames(s.drop_last());
        if s.last() == '\n' && cur.len() > 0 && cur.last() == '\n' {
            (events.push(cur.drop_last()), seq![])
        } else {
            (events, cur.push(s.last()))
        }
    }
}

/// Takes the complete events out of the stream buffer `buf`, in order,
/// leaving in it the start of the next, incomplete event.
pub fn take_sse_events(buf: &mut String) -> (events: Vec<String>)
    ensures
        events@.map_values(|e: String| e@) == sse_frames(old(buf)@).0,
        final(buf)@ == sse_frames(old(buf)@).1,
{
    let chars = chars_of(buf.as_str());
    let mut events: Vec<String> = Vec::new();
    let mut cur: Vec<char> = Vec::new();
    let mut i: usize = 0;
    while i < chars.len()
        invariant
            i <= chars@.len(),
            chars@ == old(buf)@,
            (events@.map_values(|e: String| e@), cur@) == sse_frames(old(buf)@.take(i as int)),
        decreases chars@.len() - i,
    {
        let c = chars[i];
        proof {
            assert(old(buf)@.take(i + 1).drop_last() =~= old(buf)@.take(i as int));
            assert(old(buf)@.take(i + 1).last() == c);
        }
        if c == '\n' && cur.len() > 0 && cur[cur.len() - 1] == '\n' {
            let ghost before = events@;
            let ghost whole = cur@;
            cur.pop();
            assert(cur@ =~= whole.drop_last());
            let e = crate::text::string_from_chars(cur.as_slice());
            events.push(e);
            cur = Vec::new();
            proof {
                assert(events@.map_values(|e: String| e@) =~= before.map_values(|e: String| e@).push(
                    sse_frames(old(buf)@.take(i as int)).1.drop_last(),
                ));
            }
        } else {
            cur.push(c);
        }
        i = i + 1;
    }
    proof {
        assert(old(buf)@.take(chars@.len() as int) =~= old(buf)@);
    }
    *buf = crate::text::string_from_chars(cur.as_slice());
    events
}

/// Seconds to wait before reconnecting after `reconnect_count` sessions in
/// a row that delivered nothing: doubling from one second, at most 30.
pub open spec fn backoff_secs(reconnect_count: u32) -> u64 {
    let e = if reconnect_count < 5 { reconnect_count } else { 5 };
    let d = if e == 0 { 1u64 } else if e == 1 { 2u64 } else if e == 2 { 4u64 } else if e == 3 { 8u64 } else if e
        == 4 { 16u64 } else { 32u64 };
    if d < 30 { d } else { 30 }
}

/// The reconnection delay, in seconds (see [`backoff_secs`]).
pub fn reconnect_backoff_secs(reconnect_count: u32) -> (s: u64)
    ensures
        s == backoff_secs(reconnect_count),
        1 <= s <= 30,
{
    let e: u32 = if reconnect_count < 5 {
        reconnect_count
    } else {
        5
    };
    let d: u64 = 1u64 << e;
    assert(d == if e == 0 { 1u64 } else if e == 1 { 2u64 } else if e == 2 { 4u64 } else if e == 3 { 8u64 } else if e
        == 4 { 16u64 } else { 32u64 }) by (bit_vector)
        requires
            d == 1u64 << e,
            e <= 5,
    ;
    if d < 30 {
        d
    } else {
        30
    }
}

/// The count of sessions in a row that delivered nothing, after a session
/// that delivered `events_in_session` events: back to zero after a healthy
/// session, one more (saturating) otherwise.
pub fn next_reconnect_count(reconnect_count: u32, events_in_session: u64) -> (c: u32)
    ensures
        events_in_session > 0 ==> c == 0,
        events_in_session == 0 ==> c == if reconnect_count < u32::MAX {
            (reconnect_count + 1) as u32
        } else {
            reconnect_count
        },
{
    if events_in_session > 0 {
        0
    } else {
        reconnect_count.saturating_add(1)
    }
}

/// Errors of calls to the ledger's API.
#[derive(Debug, Clone, PartialEq, Eq)]
pub enum HorizonError {
    /// The request failed; the detail says why.
    RequestError(String),
    /// No account has the given address.
    AccountNotFound(String),
    /// The API answered with an error or an unreadable body.
    InvalidResponse(String),
    /// Calls are refused while the circuit breaker is open.
    CircuitBreakerOpen(String),
}

/// The message each error displays.
pub open spec fn horizon_error_message(e: HorizonError) -> Seq<char> {
    match e {
        HorizonError::RequestError(d) => "HTTP request failed: "@ + d@,
        HorizonError::AccountNotFound(a) => "Account not found: "@ + a@,
        HorizonError::InvalidResponse(d) => "Invalid response from Horizon: "@ + d@,
        HorizonError::CircuitBreakerOpen(d) => "Circuit breaker open: "@ + d@,
    }
}

impl HorizonError {
    /// The message this error displays.
    pub fn to_string(&self) -> (s: String)
        ensures
            s@ == horizon_error_message(*self),
    {
        match self {
            HorizonError::RequestError(d) => concat("HTTP request failed: ", d.as_str()),
            HorizonError::AccountNotFound(a) => concat("Account not found: ", a.as_str()),
            HorizonError::InvalidResponse(d) => concat("Invalid response from Horizon: ", d.as_str()),
            HorizonError::CircuitBreakerOpen(d) => concat("Circuit breaker open: ", d.as_str()),
        }
    }
}

/// The address of the account resource of `address` under the API's base
/// address `base`.
pub fn account_url(base: &str, address: &str) -> (u: String)
    ensures
        u@ == trim_trailing_slashes(base@) + "/accounts/"@ + address@,
{
    let b = without_trailing_slashes(base);
    let a = concat(b.as_str(), "/accounts/");
    concat(a.as_str(), address)
}

/// What an answer with HTTP status `status` (written `status_text`) to a
/// request for the account `address` means: a success status is kept; 404
/// means the account does not exist; any other status is an API error.
pub fn account_answer(status: u16, status_text: &str, address: &str) -> (r: Result<(), HorizonError>)
    ensures
        200 <= status < 300 ==> r is Ok,
        status == 404 ==> (r matches Err(HorizonError::AccountNotFound(a)) && a@ == address@),
        !(200 <= status < 300) && status != 404 ==> (r matches Err(HorizonError::InvalidResponse(d)) && d@
            == "Horizon API error: "@ + status_text@),
{
    if 200 <= status && status < 300 {
        Ok(())
    } else if status == 404 {
        Err(HorizonError::AccountNotFound(owned(address)))
    } else {
        Err(HorizonError::InvalidResponse(concat("Horizon API error: ", status_text)))
    }
}

/// The error given for a call refused by the open circuit breaker.
pub fn breaker_open_error() -> (e: HorizonError)
    ensures
        e matches HorizonError::CircuitBreakerOpen(d) && d@ == "Horizon API circuit breaker is open"@,
{
    HorizonError::CircuitBreakerOpen(owned("Horizon API circuit breaker is open"))
}

} // verus!
