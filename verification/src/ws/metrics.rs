//! Counters of WebSocket activity: connections, messages, bytes and
//! errors, and the times of the last connection and the last message.
//!
//! Counters wrap around at `u64::MAX`, as atomic counters do.

use std::time::{Duration, Instant};
use vstd::prelude::*;

use crate::clock::{elapsed_since, instant_now};

verus! {

/// What a [`WebSocketMetrics`] holds: its counters, and whether a
/// connection and a message have been seen since it was made or reset.
pub struct MetricsCounts {
    pub total_connections: u64,
    pub active_connections: u64,
    pub messages_sent: u64,
    pub messages_received: u64,
    pub connection_errors: u64,
    pub message_errors: u64,
    pub bytes_sent: u64,
    pub bytes_received: u64,
    pub connected: bool,
    pub messaged: bool,
}

/// The counts of a fresh or reset collector: all zero, nothing seen.
pub open spec fn zero_counts() -> MetricsCounts {
    MetricsCounts {
        total_connections: 0,
        active_connections: 0,
        messages_sent: 0,
        messages_received: 0,
        connection_errors: 0,
        message_errors: 0,
        bytes_sent: 0,
        bytes_received: 0,
        connected: false,
        messaged: false,
    }
}

/// Collector of WebSocket metrics.
#[derive(Debug, Clone)]
pub struct WebSocketMetrics {
    total_connections: u64,
    active_connections: u64,
    messages_sent: u64,
    messages_received: u64,
    connection_errors: u64,
    message_errors: u64,
    bytes_sent: u64,
    bytes_received: u64,
    last_connection_time: Option<Instant>,
    last_message_time: Option<Instant>,
}

impl View for WebSocketMetrics {
    type V = MetricsCounts;

    closed spec fn view(&self) -> MetricsCounts {
        MetricsCounts {
            total_connections: self.total_connections,
            active_connections: self.active_connections,
            messages_sent: self.messages_sent,
            messages_received: self.messages_received,
            connection_errors: self.connection_errors,
            message_errors: self.message_errors,
            bytes_sent: self.bytes_sent,
            bytes_received: self.bytes_received,
            connected: self.last_connection_time is Some,
            messaged: self.last_message_time is Some,
        }
    }
}

impl WebSocketMetrics {
    /// A collector with every counter at zero.
    pub fn new() -> (m: Self)
        ensures
            m@ == zero_counts(),
    {
        WebSocketMetrics {
            total_connections: 0,
            active_connections: 0,
            messages_sent: 0,
            messages_received: 0,
            connection_errors: 0,
            message_errors: 0,
            bytes_sent: 0,
            bytes_received: 0,
            last_connection_time: None,
            last_message_time: None,
        }
    }

    /// Counts a new connection, both in the total and among the active
    /// ones, and notes its time.
    pub fn record_connection(&mut self)
        ensures
            final(self)@ == (MetricsCounts {
                total_connections: old(self)@.total_connections.wrapping_add(1),
                active_connections: old(self)@.active_connections.wrapping_add(1),
                connected: true,
                ..old(self)@
            }),
    {
        self.total_connections = self.total_connections.wrapping_add(1);
        self.active_connections = self.active_connections.wrapping_add(1);
        self.last_connection_time = Some(instant_now());
    }

    /// Counts a disconnection: one active connection fewer.
    pub fn record_disconnection(&mut self)
        ensures
            final(self)@ == (MetricsCounts {
                active_connections: old(self)@.active_connections.wrapping_sub(1),
                ..old(self)@
            }),
    {
        self.active_connections = self.active_connections.wrapping_sub(1);
    }

    /// Counts a sent message of `bytes` bytes and notes its time.
    pub fn record_message_sent(&mut self, bytes: u64)
        ensures
            final(self)@ == (MetricsCounts {
                messages_sent: old(self)@.messages_sent.wrapping_add(1),
                bytes_sent: old(self)@.bytes_sent.wrapping_add(bytes),
                messaged: true,
                ..old(self)@
            }),
    {
        self.messages_sent = self.messages_sent.wrapping_add(1);
        self.bytes_sent = self.bytes_sent.wrapping_add(bytes);
        self.last_message_time = Some(instant_now());
    }

    /// Counts a received message of `bytes` bytes and notes its time.
    pub fn record_message_received(&mut self, bytes: u64)
        ensures
            final(self)@ == (MetricsCounts {
                messages_received: old(self)@.messages_received.wrapping_add(1),
                bytes_received: old(self)@.bytes_received.wrapping_add(bytes),
                messaged: true,
                ..old(self)@
            }),
    {
        self.messages_received = self.messages_received.wrapping_add(1);
        self.bytes_received = self.bytes_received.wrapping_add(bytes);
        self.last_message_time = Some(instant_now());
    }

    /// Counts a connection error.
    pub fn record_connection_error(&mut self)
        ensures
            final(self)@ == (MetricsCounts {
                connection_errors: old(self)@.connection_errors.wrapping_add(1),
                ..old(self)@
            }),
    {
        self.connection_errors = self.connection_errors.wrapping_add(1);
    }

    /// Counts a message error.
    pub fn record_message_error(&mut self)
        ensures
            final(self)@ == (MetricsCounts {
                message_errors: old(self)@.message_errors.wrapping_add(1),
                ..old(self)@
            }),
    {
        self.message_errors = self.message_errors.wrapping_add(1);
    }

    /// Connections made in all.
    pub fn total_connections(&self) -> (n: u64)
        ensures
            n == self@.total_connections,
    {
        self.total_connections
    }

    /// Connections currently open.
    pub fn active_connections(&self) -> (n: u64)
        ensures
            n == self@.active_connections,
    {
        self.active_connections
    }

    /// Messages sent in all.
    pub fn messages_sent(&self) -> (n: u64)
        ensures
            n == self@.messages_sent,
    {
        self.messages_sent
    }

    /// Messages received in all.
    pub fn messages_received(&self) -> (n: u64)
        ensures
            n == self@.messages_received,
    {
        self.messages_received
    }

    /// Connection errors in all.
    pub fn connection_errors(&self) -> (n: u64)
        ensures
            n == self@.connection_errors,
    {
        self.connection_errors
    }

    /// Message errors in all.
    pub fn message_errors(&self) -> (n: u64)
        ensures
            n == self@.message_errors,
    {
        self.message_errors
    }

    /// Bytes sent in all.
    pub fn bytes_sent(&self) -> (n: u64)
        ensures
            n == self@.bytes_sent,
    {
        self.bytes_sent
    }

    /// Bytes received in all.
    pub fn bytes_received(&self) -> (n: u64)
        ensures
            n == self@.bytes_received,
    {
        self.bytes_received
    }

    /// Time since the last connection, if one has been seen.
    pub fn time_since_last_connection(&self) -> (d: Option<Duration>)
        ensures
            d is Some == self@.connected,
    {
        match &self.last_connection_time {
            Some(t) => Some(elapsed_since(t)),
            None => None,
        }
    }

    /// Time since the last message, if one has been seen.
    pub fn time_since_last_message(&self) -> (d: Option<Duration>)
        ensures
            d is Some == self@.messaged,
    {
        match &self.last_message_time {
            Some(t) => Some(elapsed_since(t)),
            None => None,
        }
    }

    /// Sets every counter back to zero and forgets the last times.
    pub fn reset(&mut self)
        ensures
            final(self)@ == zero_counts(),
    {
        self.total_connections = 0;
        self.active_connections = 0;
        self.messages_sent = 0;
        self.messages_received = 0;
        self.connection_errors = 0;
        self.message_errors = 0;
        self.bytes_sent = 0;
        self.bytes_received = 0;
        self.last_connection_time = None;
        self.last_message_time = None;
    }
}

impl Default for WebSocketMetrics {
    fn default() -> (m: Self)
        ensures
            m@ == zero_counts(),
    {
        Self::new()
    }
}

} // verus!
