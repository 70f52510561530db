//! Telemetry records and their export configuration.
//!
//! The record kinds and the bounded export buffer live here; framing a
//! batch (identifier, timestamp, serialized size) is left to the caller.

use std::collections::VecDeque;
use vstd::prelude::*;

use crate::telemetry::error_handling::TelemetryError;
use crate::telemetry::input_validation::ValidationError;
use crate::text::owned;

verus! {

/// Maximum number of records the export buffer holds by default.
pub const MAX_BUFFER_SIZE: usize = 1000;

/// Number of records per export batch by default.
pub const DEFAULT_BATCH_SIZE: usize = 100;

/// Maximum serialized payload size of a batch, in bytes.
pub const MAX_PAYLOAD_SIZE: usize = 1048576;

/// Kind of a telemetry record.
#[derive(Debug, Clone, Copy, PartialEq, Eq, Structural)]
pub enum RecordType {
    Trace,
    Metric,
    Event,
}

/// Outcome recorded on a trace span.
#[derive(Debug, Clone, Copy, PartialEq, Eq, Structural)]
pub enum TraceStatus {
    /// The span completed normally.
    Success,
    Error,
    Unset,
}

/// Kind of a metric instrument.
#[derive(Debug, Clone, Copy, PartialEq, Eq, Structural)]
pub enum MetricType {
    Counter,
    Gauge,
    Histogram,
    Summary,
}

/// Severity of an event record.
#[derive(Debug, Clone, Copy, PartialEq, Eq, Structural)]
pub enum EventLevel {
    Debug,
    Info,
    Warn,
    Error,
}

/// A finished span of a trace.
#[derive(Debug, Clone)]
pub struct TraceData {
    pub trace_id: String,
    pub span_id: String,
    pub parent_span_id: Option<String>,
    pub operation_name: String,
    pub start_time: u64,
    pub end_time: u64,
    pub status: TraceStatus,
    pub tags: Vec<(String, String)>,
}

/// A named event with a message.
#[derive(Debug, Clone)]
pub struct EventData {
    pub event_name: String,
    pub message: String,
    pub level: EventLevel,
}

/// Configuration of the export service.
#[derive(Debug, Clone)]
pub struct ExportConfig {
    /// Maximum buffer size.
    pub max_buffer_size: usize,
    /// Batch size for exports.
    pub batch_size: usize,
    /// Export endpoint URL.
    pub endpoint: String,
    /// Export timeout in seconds.
    pub timeout_secs: u64,
    /// Whether to enable compression.
    pub compression: bool,
}

impl Default for ExportConfig {
    /// A buffer of [`MAX_BUFFER_SIZE`] records exported in batches of
    /// [`DEFAULT_BATCH_SIZE`], no endpoint, a 30 s timeout, compression on.
    fn default() -> (c: Self)
        ensures
            c.max_buffer_size == MAX_BUFFER_SIZE,
            c.batch_size == DEFAULT_BATCH_SIZE,
            c.endpoint@ == Seq::<char>::empty(),
            c.timeout_secs == 30,
            c.compression,
    {
        ExportConfig {
            max_buffer_size: MAX_BUFFER_SIZE,
            batch_size: DEFAULT_BATCH_SIZE,
            endpoint: String::new(),
            timeout_secs: 30,
            compression: true,
        }
    }
}

/// A batch of records ready for export, with its identifier, its
/// serialized size in bytes and its creation time (milliseconds since the
/// epoch).
#[derive(Debug)]
pub struct ExportBatch<R> {
    pub batch_id: String,
    pub records: Vec<R>,
    pub size_bytes: usize,
    pub created_at: u64,
}

impl<R> ExportBatch<R> {
    /// Whether the batch may be exported: it holds a record and its size is
    /// within [`MAX_PAYLOAD_SIZE`].
    pub fn is_valid(&self) -> (r: bool)
        ensures
            r == (self.records@.len() > 0 && self.size_bytes <= MAX_PAYLOAD_SIZE),
    {
        self.records.len() > 0 && self.size_bytes <= MAX_PAYLOAD_SIZE
    }
}

/// The records a buffer holds after `record` is added to `held`, when it
/// holds at most `max_size`: the oldest record makes room when it is full.
pub open spec fn admitted<R>(held: Seq<R>, max_size: nat, record: R) -> Seq<R> {
    if held.len() >= max_size && held.len() > 0 {
        held.drop_first().push(record)
    } else {
        held.push(record)
    }
}

/// A buffer that holds at most `max_size` records, `max_size` being at
/// least one, still does after a record is added.
pub proof fn lemma_admitted_within_limit<R>(held: Seq<R>, max_size: nat, record: R)
    requires
        1 <= max_size,
        held.len() <= max_size,
    ensures
        admitted(held, max_size, record).len() <= max_size,
        admitted(held, max_size, record).last() == record,
{
}

/// A bounded first-in first-out buffer of records waiting for export. When
/// full, the oldest record is dropped to make room; once it holds a batch's
/// worth of records, they are all handed out together.
#[derive(Debug)]
pub struct ExportBuffer<R> {
    buffer: VecDeque<R>,
    max_size: usize,
    batch_size: usize,
}

impl<R> View for ExportBuffer<R> {
    type V = Seq<R>;

    closed spec fn view(&self) -> Seq<R> {
        self.buffer@
    }
}

impl<R> ExportBuffer<R> {
    /// Most records held at once.
    pub closed spec fn max_size(&self) -> usize {
        self.max_size
    }

    /// Records handed out together.
    pub closed spec fn batch_size(&self) -> usize {
        self.batch_size
    }

    /// An empty buffer of at most `max_size` records that hands out
    /// batches of `batch_size`.
    pub fn new(max_size: usize, batch_size: usize) -> (b: Self)
        ensures
            b@ == Seq::<R>::empty(),
            b.max_size() == max_size,
            b.batch_size() == batch_size,
    {
        ExportBuffer { buffer: VecDeque::new(), max_size, batch_size }
    }

    /// An empty buffer with the default limits.
    pub fn with_default_limits() -> (b: Self)
        ensures
            b@ == Seq::<R>::empty(),
            b.max_size() == MAX_BUFFER_SIZE,
            b.batch_size() == DEFAULT_BATCH_SIZE,
    {
        Self::new(MAX_BUFFER_SIZE, DEFAULT_BATCH_SIZE)
    }

    /// Adds `record`, dropping the oldest record first when the buffer is
    /// full. When the buffer then holds at least a batch's worth, all its
    /// records are handed out, oldest first, and it is left empty.
    pub fn push(&mut self, record: R) -> (out: Option<Vec<R>>)
        ensures
            final(self).max_size() == old(self).max_size(),
            final(self).batch_size() == old(self).batch_size(),
            admitted(old(self)@, old(self).max_size() as nat, record).len() >= old(self).batch_size() ==> (
            out matches Some(v) && v@ == admitted(old(self)@, old(self).max_size() as nat, record)
                && final(self)@.len() == 0),
            admitted(old(self)@, old(self).max_size() as nat, record).len() < old(self).batch_size() ==> (
            out is None && final(self)@ == admitted(old(self)@, old(self).max_size() as nat, record)),
    {
        if self.buffer.len() >= self.max_size {
            let _ = self.buffer.pop_front();
        }
        self.buffer.push_back(record);
        self.maybe_flush()
    }

    /// Hands out every record held once there is at least a batch's worth.
    fn maybe_flush(&mut self) -> (out: Option<Vec<R>>)
        ensures
            final(self).max_size() == old(self).max_size(),
            final(self).batch_size() == old(self).batch_size(),
            old(self)@.len() >= old(self).batch_size() && old(self)@.len() > 0 ==> (
            out matches Some(v) && v@ == old(self)@ && final(self)@.len() == 0),
            old(self)@.len() < old(self).batch_size() ==> (out is None && final(self)@ == old(self)@),
    {
        if self.buffer.len() >= self.batch_size {
            self.flush()
        } else {
            None
        }
    }

    /// Hands out every record held, oldest first, leaving the buffer
    /// empty; `None` when it holds none.
    pub fn flush(&mut self) -> (out: Option<Vec<R>>)
        ensures
            final(self).max_size() == old(self).max_size(),
            final(self).batch_size() == old(self).batch_size(),
            final(self)@.len() == 0,
            old(self)@.len() == 0 ==> out is None,
            old(self)@.len() > 0 ==> (out matches Some(v) && v@ == old(self)@),
    {
        if self.buffer.len() == 0 {
            return None;
        }
        let ghost held = self.buffer@;
        let mut records: Vec<R> = Vec::new();
        while self.buffer.len() > 0
            invariant
                records@ + self.buffer@ == held,
                self.max_size == old(self).max_size(),
                self.batch_size == old(self).batch_size(),
            decreases self.buffer@.len(),
        {
            match self.buffer.pop_front() {
                Some(r) => {
                    records.push(r);
                },
                None => {},
            }
            assert(records@ + self.buffer@ =~= held);
        }
        assert(records@ =~= held);
        Some(records)
    }

    /// Number of records held.
    pub fn len(&self) -> (n: usize)
        ensures
            n == self@.len(),
    {
        self.buffer.len()
    }

    /// Whether no record is held.
    pub fn is_empty(&self) -> (r: bool)
        ensures
            r == (self@.len() == 0),
    {
        self.buffer.len() == 0
    }
}

/// The check of a record before it is buffered: its identifier must not
/// be empty and its serialized size, `payload_size` bytes, must be within
/// [`MAX_PAYLOAD_SIZE`].
pub fn check_record(id: &str, payload_size: usize) -> (r: Result<(), TelemetryError>)
    ensures
        id@.len() == 0 ==> (r matches Err(TelemetryError::ValidationError(ValidationError::EmptyValue(m)))
            && m@ == "record ID cannot be empty"@),
        id@.len() > 0 && payload_size > MAX_PAYLOAD_SIZE ==> (r matches Err(
            TelemetryError::PayloadTooLarge(n),
        ) && n == MAX_PAYLOAD_SIZE),
        id@.len() > 0 && payload_size <= MAX_PAYLOAD_SIZE ==> r is Ok,
{
    if id.unicode_len() == 0 {
        return Err(TelemetryError::ValidationError(ValidationError::EmptyValue(owned("record ID cannot be empty"))));
    }
    if payload_size > MAX_PAYLOAD_SIZE {
        return Err(TelemetryError::PayloadTooLarge(MAX_PAYLOAD_SIZE));
    }
    Ok(())
}

} // verus!
