//! One direction of a connection: the bytes sent, and what the other side has
//! acknowledged of them.

use vstd::prelude::*;

use crate::reassembly::{fills_a_gap, filled, is_prefix_length, prefix_length, Reassembler};

verus! {

/// How far `to` lies ahead of `from` on the circle of sequence numbers, in the
/// shorter sense; negative if it lies behind.
pub open spec fn seq_distance(from: int, to: int) -> int {
    let ahead = (to - from) % 0x1_0000_0000;
    if ahead < 0x8000_0000 {
        ahead
    } else {
        ahead - 0x1_0000_0000
    }
}

/// Computes how far `to` lies ahead of `from`.
fn distance(from: u32, to: u32) -> (ahead: i64)
    ensures
        ahead == seq_distance(from as int, to as int),
{
    let ahead: u32 = to.wrapping_sub(from);
    if ahead < 0x8000_0000 {
        ahead as i64
    } else {
        ahead as i64 - 0x1_0000_0000
    }
}

/// Computes the sequence number that comes `count` numbers after `seq`.
fn advance(seq: u32, count: usize) -> (sum: u32)
    ensures
        sum == (seq + count) % 0x1_0000_0000,
{
    ((seq as u128 + count as u128) % 0x1_0000_0000) as u32
}

/// Everything that a stream knows.
pub struct StreamView {
    /// window scale option that the sender announced
    pub window_scale: u8,
    /// whether the sender has reset the connection
    pub had_reset: bool,
    /// whether the receiver has acknowledged the sender's FIN
    pub has_ended: bool,
    /// sequence number of the first byte
    pub isn: u32,
    /// window size that the receiver announced last, not scaled
    pub window: u16,
    /// the highest sequence number that the receiver expects next
    pub acked: u32,
    /// sequence number of the sender's FIN, once seen
    pub fin: Option<u32>,
    /// the bytes seen, by their distance from the first one
    pub received: Map<int, u8>,
}

impl StreamView {
    /// A stream of which nothing has been seen.
    pub open spec fn unseen() -> StreamView {
        StreamView {
            window_scale: 0,
            had_reset: false,
            has_ended: false,
            isn: 0,
            window: 0,
            acked: 0,
            fin: None,
            received: Map::empty(),
        }
    }

    /// The stream, about to start at sequence number `isn`.
    pub open spec fn started(self, isn: u32, window: u16) -> StreamView {
        StreamView {
            isn,
            window,
            acked: isn,
            fin: None,
            has_ended: false,
            received: Map::empty(),
            ..self
        }
    }

    /// The offset that a packet with sequence number `seq` speaks of: the one
    /// nearest to the end of the readable bytes.
    pub open spec fn offset_of(self, seq: u32) -> int {
        let readable = prefix_length(self.received);
        readable + seq_distance(self.isn + readable, seq as int)
    }

    /// Whether data at sequence number `seq` holds a byte not seen before.
    pub open spec fn lacks(self, seq: u32, data: Seq<u8>) -> bool {
        fills_a_gap(self.received, self.offset_of(seq), data)
    }

    /// The stream after data at sequence number `seq`.
    pub open spec fn with_data(self, seq: u32, data: Seq<u8>) -> StreamView {
        StreamView { received: filled(self.received, self.offset_of(seq), data), ..self }
    }

    /// The stream after the receiver has acknowledged everything before sequence
    /// number `ack` and announced a window. An acknowledgment older than one seen
    /// before says nothing new.
    pub open spec fn with_ack(self, ack: u32, window: u16) -> StreamView {
        let ahead = seq_distance(self.acked as int, ack as int);
        let acked = if ahead > 0 {
            ack
        } else {
            self.acked
        };
        StreamView {
            acked,
            window: if ahead >= 0 {
                window
            } else {
                self.window
            },
            has_ended: self.has_ended || (self.fin matches Some(fin) && seq_distance(
                fin as int,
                acked as int,
            ) > 0),
            ..self
        }
    }

    /// The stream after a FIN behind `len` bytes of data at sequence number
    /// `seq`. Only the first FIN counts.
    pub open spec fn with_fin(self, seq: u32, len: nat) -> StreamView {
        match self.fin {
            Some(_) => self,
            None => StreamView { fin: Some(((seq + len) % 0x1_0000_0000) as u32), ..self },
        }
    }
}

/// one direction of a connection
pub struct Stream {
    /// window scale option that the sender announced
    pub window_scale: u8,
    /// whether the sender has reset the connection
    pub had_reset: bool,
    /// whether the receiver has acknowledged the sender's FIN
    pub has_ended: bool,
    /// sequence number of the first byte
    pub isn: u32,
    /// window size that the receiver announced last, not scaled
    pub window: u16,
    /// the highest sequence number that the receiver expects next
    pub acked: u32,
    /// sequence number of the sender's FIN, once seen
    pub fin: Option<u32>,
    /// the bytes seen
    pub buffer: Reassembler,
}

impl View for Stream {
    type V = StreamView;

    open spec fn view(&self) -> StreamView {
        StreamView {
            window_scale: self.window_scale,
            had_reset: self.had_reset,
            has_ended: self.has_ended,
            isn: self.isn,
            window: self.window,
            acked: self.acked,
            fin: self.fin,
            received: self.buffer@,
        }
    }
}

impl Stream {
    /// create new stream
    pub fn new() -> (stream: Stream)
        ensures
            stream@ == StreamView::unseen(),
    {
        Stream {
            window_scale: 0,
            had_reset: false,
            has_ended: false,
            isn: 0,
            window: 0,
            acked: 0,
            fin: None,
            buffer: Reassembler::new(),
        }
    }

    /// set the sequence number of the first byte, and the window that the
    /// receiver announced
    pub fn set_isn(&mut self, isn: u32, window: u16)
        ensures
            final(self)@ == old(self)@.started(isn, window),
    {
        self.isn = isn;
        self.window = window;
        self.acked = isn;
        self.fin = None;
        self.has_ended = false;
        self.buffer = Reassembler::new();
    }

    /// handle data sent in this direction; returns whether any of it was new
    pub fn handle_data_packet(&mut self, seq_number: u32, data: &[u8]) -> (added: bool)
        ensures
            final(self)@ == old(self)@.with_data(seq_number, data@),
            added == old(self)@.lacks(seq_number, data@),
            !added ==> *final(self) == *old(self),
    {
        let readable = self.buffer.readable_length();
        let ahead = distance(advance(self.isn, readable), seq_number);
        self.buffer.accept(ahead, data)
    }

    /// handle an acknowledgment sent against this direction; returns whether it
    /// said anything new
    pub fn handle_ack_packet(&mut self, ack_number: u32, window: u16) -> (changed: bool)
        ensures
            final(self)@ == old(self)@.with_ack(ack_number, window),
            changed == (final(self)@ != old(self)@),
            !changed ==> *final(self) == *old(self),
    {
        let mut changed = false;
        let ahead = distance(self.acked, ack_number);
        if ahead > 0 {
            self.acked = ack_number;
            changed = true;
        }
        if ahead >= 0 && self.window != window {
            self.window = window;
            changed = true;
        }
        if let Some(fin) = self.fin {
            if !self.has_ended && distance(fin, self.acked) > 0 {
                self.has_ended = true;
                changed = true;
            }
        }
        changed
    }

    /// handle a FIN sent in this direction, in a packet with `data_len` bytes of
    /// data; returns whether it is the first one
    pub fn handle_fin_packet(&mut self, seq_number: u32, data_len: usize) -> (first: bool)
        ensures
            final(self)@ == old(self)@.with_fin(seq_number, data_len as nat),
            first == (old(self)@.fin is None),
            !first ==> *final(self) == *old(self),
    {
        if self.fin.is_some() {
            false
        } else {
            self.fin = Some(advance(seq_number, data_len));
            true
        }
    }

    /// how many bytes can be read before the first gap
    pub fn readable_buffered_length(&self) -> (len: usize)
        ensures
            is_prefix_length(self@.received, len as nat),
            len == prefix_length(self@.received),
    {
        self.buffer.readable_length()
    }
}

} // verus!
