//! What packets and events do to a connection.

use vstd::prelude::*;

use crate::connection::ConnectionState;
use crate::direction::Direction;
use crate::flow_table::{Flow, FlowCompare};
use crate::handler::{ConnectionHandler, Event};
use crate::meta::TcpMeta;
use crate::stream::StreamView;

verus! {

/// Whether the octets that `bits` spells are those of a random UUID: version 4,
/// of the variant with the leading bits `10`.
pub open spec fn is_random_uuid(bits: u128) -> bool {
    &&& bits / 0x1000_0000_0000_0000_0000 % 16 == 4
    &&& bits / 0x4000_0000_0000_0000 % 4 == 2
}

/// The sequence number after `seq`.
pub open spec fn next_seq(seq: u32) -> int {
    (seq + 1) % 0x1_0000_0000
}

/// A stream whose sender announced a window scale, or did not.
pub open spec fn scaled(stream: StreamView, scale: Option<u8>) -> StreamView {
    match scale {
        Some(window_scale) => StreamView { window_scale, ..stream },
        None => stream,
    }
}

/// Everything that a connection knows.
pub struct ConnectionView<H> {
    /// unique identifier for connection
    pub uuid: u128,
    /// forward direction flow identifier
    pub forward_flow: Flow,
    /// state of connection handshake
    pub conn_state: ConnectionState,
    /// whether the full 3-way handshake was observed
    pub observed_handshake: bool,
    /// whether the connection close was observed
    pub observed_close: bool,
    /// forward direction stream
    pub forward_stream: StreamView,
    /// reverse direction stream
    pub reverse_stream: StreamView,
    /// event handler object
    pub event_handler: Option<H>,
}

impl<H> ConnectionView<H> {
    /// A connection of which no packet has been seen, without a handler.
    pub open spec fn unseen(uuid: u128, forward_flow: Flow) -> ConnectionView<H> {
        ConnectionView {
            uuid,
            forward_flow,
            conn_state: ConnectionState::Uninitialized,
            observed_handshake: false,
            observed_close: false,
            forward_stream: StreamView::unseen(),
            reverse_stream: StreamView::unseen(),
            event_handler: None,
        }
    }

    /// The connection as a handler is handed it: without one.
    pub open spec fn without_handler(self) -> ConnectionView<H> {
        ConnectionView { event_handler: None, ..self }
    }

    /// The connection with `handler` in charge of its events.
    pub open spec fn with_handler(self, handler: H) -> ConnectionView<H> {
        ConnectionView { event_handler: Some(handler), ..self }
    }

    /// Whether a packet belongs to this connection.
    pub open spec fn concerns(self, meta: TcpMeta) -> bool {
        self.forward_flow.relation(meta) != FlowCompare::Unrelated
    }

    /// The direction in which a packet of this connection travels.
    pub open spec fn direction(self, meta: TcpMeta) -> Direction {
        if self.forward_flow.relation(meta) == FlowCompare::Forward {
            Direction::Forward
        } else {
            Direction::Reverse
        }
    }

    /// The stream in a direction.
    pub open spec fn stream(self, direction: Direction) -> StreamView {
        match direction {
            Direction::Forward => self.forward_stream,
            Direction::Reverse => self.reverse_stream,
        }
    }

    /// The connection with another stream in a direction.
    pub open spec fn with_stream(self, direction: Direction, stream: StreamView) -> ConnectionView<
        H,
    > {
        match direction {
            Direction::Forward => ConnectionView { forward_stream: stream, ..self },
            Direction::Reverse => ConnectionView { reverse_stream: stream, ..self },
        }
    }

    /// Whether a packet with SYN moves the handshake on: the first one always,
    /// and, after a SYN, a SYN/ACK against the direction of the SYN.
    pub open spec fn takes_syn(self, meta: TcpMeta) -> bool {
        match self.conn_state {
            ConnectionState::Uninitialized => true,
            ConnectionState::SynSent { .. } => meta.flags.ack && self.forward_flow.relation(meta)
                == FlowCompare::Reverse,
            _ => false,
        }
    }

    /// The connection after a packet with SYN. The flow is turned so that SYN
    /// travels along with it, and SYN/ACK against it.
    pub open spec fn after_syn(self, meta: TcpMeta) -> ConnectionView<H> {
        if !self.takes_syn(meta) {
            self
        } else if meta.flags.ack {
            ConnectionView {
                conn_state: ConnectionState::SynReceived {
                    seq_no: meta.seq_number,
                    ack_no: meta.ack_number,
                    window_size: meta.window,
                    syn_seen: self.conn_state is SynSent,
                },
                reverse_stream: scaled(self.reverse_stream, meta.option_window_scale),
                forward_flow: if self.forward_flow.relation(meta) == FlowCompare::Forward {
                    self.forward_flow.reversed()
                } else {
                    self.forward_flow
                },
                ..self
            }
        } else {
            ConnectionView {
                conn_state: ConnectionState::SynSent { seq_no: meta.seq_number },
                forward_stream: scaled(self.forward_stream, meta.option_window_scale),
                forward_flow: if self.forward_flow.relation(meta) == FlowCompare::Reverse {
                    self.forward_flow.reversed()
                } else {
                    self.forward_flow
                },
                ..self
            }
        }
    }

    /// The connection after a packet with RST.
    pub open spec fn after_rst(self, meta: TcpMeta) -> ConnectionView<H> {
        let direction = self.direction(meta);
        ConnectionView {
            conn_state: ConnectionState::Closed,
            observed_close: true,
            ..self.with_stream(
                direction,
                StreamView { had_reset: true, ..self.stream(direction) },
            )
        }
    }

    /// The connection once a packet other than SYN or RST has ended its
    /// handshake: the streams start with the numbers that this packet shows.
    pub open spec fn established(
        self,
        meta: TcpMeta,
        forward_window: u16,
        reverse_window: u16,
        complete: bool,
    ) -> ConnectionView<H> {
        let (forward_isn, reverse_isn) = match self.direction(meta) {
            Direction::Forward => (meta.seq_number, meta.ack_number),
            Direction::Reverse => (meta.ack_number, meta.seq_number),
        };
        ConnectionView {
            conn_state: ConnectionState::Established { forward_isn, reverse_isn },
            observed_handshake: self.observed_handshake || complete,
            forward_stream: self.forward_stream.started(forward_isn, forward_window),
            reverse_stream: self.reverse_stream.started(reverse_isn, reverse_window),
            ..self
        }
    }

    /// Whether a packet is the last one of a handshake whose SYN was seen and
    /// whose SYN/ACK had the numbers `seq_no` and `ack_no`.
    pub open spec fn completes_handshake(
        self,
        meta: TcpMeta,
        seq_no: u32,
        ack_no: u32,
        syn_seen: bool,
    ) -> bool {
        &&& self.direction(meta) == Direction::Forward
        &&& meta.flags.ack
        &&& meta.seq_number == ack_no
        &&& meta.ack_number == next_seq(seq_no)
        &&& syn_seen
    }

    /// The connection once a packet other than SYN or RST has followed on a
    /// SYN/ACK.
    pub open spec fn established_after_syn_ack(
        self,
        meta: TcpMeta,
        seq_no: u32,
        ack_no: u32,
        forward_window: u16,
        syn_seen: bool,
    ) -> ConnectionView<H> {
        let complete = self.completes_handshake(meta, seq_no, ack_no, syn_seen);
        let reverse_window = if complete {
            meta.window
        } else {
            0
        };
        self.established(meta, forward_window, reverse_window, complete)
    }

    /// Whether the handshake has not ended yet.
    pub open spec fn in_handshake(self) -> bool {
        self.conn_state is Uninitialized || self.conn_state is SynSent
            || self.conn_state is SynReceived
    }

    /// The connection once a packet other than SYN or RST has ended its
    /// handshake, from wherever that was.
    pub open spec fn past_handshake(self, meta: TcpMeta) -> ConnectionView<H> {
        match self.conn_state {
            ConnectionState::SynReceived { seq_no, ack_no, window_size, syn_seen } =>
                self.established_after_syn_ack(meta, seq_no, ack_no, window_size, syn_seen),
            _ => self.established(meta, 0, 0, false),
        }
    }

    /// Whether a packet carries a byte not seen before.
    pub open spec fn brings_data(self, meta: TcpMeta, data: Seq<u8>) -> bool {
        self.stream(self.direction(meta)).lacks(meta.seq_number, data)
    }

    /// Whether a packet carries the first FIN of its direction.
    pub open spec fn brings_fin(self, meta: TcpMeta) -> bool {
        meta.flags.fin && self.stream(self.direction(meta)).fin is None
    }

    /// The stream that a packet acknowledges, after it has done so.
    pub open spec fn acknowledged(self, meta: TcpMeta) -> StreamView {
        let stream = self.stream(self.direction(meta).opposite());
        if meta.flags.ack {
            stream.with_ack(meta.ack_number, meta.window)
        } else {
            stream
        }
    }

    /// Whether a packet says anything new to the sender of what it acknowledges.
    pub open spec fn brings_ack(self, meta: TcpMeta) -> bool {
        self.acknowledged(meta) != self.stream(self.direction(meta).opposite())
    }

    /// Whether a packet acknowledges the FIN of the opposite direction, for the
    /// first time.
    pub open spec fn brings_end(self, meta: TcpMeta) -> bool {
        self.acknowledged(meta).has_ended && !self.stream(
            self.direction(meta).opposite(),
        ).has_ended
    }

    /// The stream that a packet's data and FIN belong to, after they have been
    /// taken in.
    pub open spec fn extended(self, meta: TcpMeta, data: Seq<u8>) -> StreamView {
        let stream = self.stream(self.direction(meta)).with_data(meta.seq_number, data);
        if meta.flags.fin {
            stream.with_fin(meta.seq_number, data.len())
        } else {
            stream
        }
    }

    /// The connection after both streams have taken in a packet, and before any
    /// event.
    pub open spec fn moved(self, meta: TcpMeta, data: Seq<u8>) -> ConnectionView<H> {
        let direction = self.direction(meta);
        self.with_stream(direction, self.extended(meta, data)).with_stream(
            direction.opposite(),
            self.acknowledged(meta),
        )
    }

    /// The connection closed, because both directions have ended.
    pub open spec fn closed(self) -> ConnectionView<H> {
        ConnectionView { conn_state: ConnectionState::Closed, observed_close: true, ..self }
    }
}

impl<H: ConnectionHandler> ConnectionView<H> {
    /// Whether the connection can be `after` once its handler, if it has one, has
    /// been told of an event. The handler stays in charge, whatever it has done.
    pub open spec fn told(self, event: Event, after: ConnectionView<H>) -> bool {
        match self.event_handler {
            None => after == self,
            Some(handler) => exists|handler_after: H, conn_after: ConnectionView<H>|
                #[trigger] H::reacts(
                    event,
                    handler,
                    self.without_handler(),
                    handler_after,
                    conn_after,
                ) && after == conn_after.with_handler(handler_after),
        }
    }

    /// Whether the connection can be `after` once its handler has been told of an
    /// event that may not have happened.
    pub open spec fn told_if(
        self,
        happened: bool,
        event: Event,
        after: ConnectionView<H>,
    ) -> bool {
        if happened {
            self.told(event, after)
        } else {
            after == self
        }
    }

    /// Whether a connection whose streams have taken in a packet can be `after`
    /// once its handler has heard of what the packet brought: data and a FIN in
    /// `direction`, and the end of the opposite direction, in this order. Then
    /// the connection is closed, if that end leaves no direction open.
    pub open spec fn reported(
        self,
        direction: Direction,
        got_data: bool,
        got_fin: bool,
        got_end: bool,
        last_open: bool,
        after: ConnectionView<H>,
    ) -> bool {
        exists|heard: ConnectionView<H>, finished: ConnectionView<H>, ended: ConnectionView<H>|
            {
                &&& #[trigger] self.told_if(got_data, Event::DataReceived(direction), heard)
                &&& #[trigger] heard.told_if(got_fin, Event::FinReceived(direction), finished)
                &&& #[trigger] finished.told_if(
                    got_end,
                    Event::StreamEnd(direction.opposite()),
                    ended,
                )
                &&& after == if got_end && last_open {
                    ended.closed()
                } else {
                    ended
                }
            }
    }

    /// Whether an established connection can be `after` once it has handled a
    /// packet with `data`, and has reported `did_something`.
    pub open spec fn transfers(
        self,
        meta: TcpMeta,
        data: Seq<u8>,
        after: ConnectionView<H>,
        did_something: bool,
    ) -> bool {
        let direction = self.direction(meta);
        &&& did_something == (self.brings_data(meta, data) || self.brings_ack(meta)
            || self.brings_fin(meta))
        &&& self.moved(meta, data).reported(
            direction,
            self.brings_data(meta, data),
            self.brings_fin(meta),
            self.brings_end(meta),
            self.stream(direction).has_ended,
            after,
        )
    }

    /// Whether a connection whose handshake has just ended can be `after` once
    /// the handler has heard of it and the data of the packet that ended it have
    /// been handled.
    pub open spec fn begins(
        self,
        meta: TcpMeta,
        data: Seq<u8>,
        after: ConnectionView<H>,
        did_something: bool,
    ) -> bool {
        exists|open: ConnectionView<H>|
            {
                &&& #[trigger] self.told(Event::HandshakeDone, open)
                &&& if data.len() > 0 {
                    open.concerns(meta) && open.transfers(meta, data, after, did_something)
                } else {
                    after == open && did_something
                }
            }
    }

    /// Whether a connection whose handshake has just ended still has the packet
    /// that ended it, if that carries data, among its own once the handler has
    /// heard of it, whichever way the handler may react.
    pub open spec fn holds_on(self, meta: TcpMeta, data: Seq<u8>) -> bool {
        data.len() > 0 ==> forall|open: ConnectionView<H>| #[trigger]
            self.told(Event::HandshakeDone, open) ==> open.concerns(meta)
    }

    /// Whether a connection whose handshake has just ended can be `after`, because
    /// the handler turned it to a flow that the packet with `data` does not belong
    /// to.
    pub open spec fn strays(
        self,
        meta: TcpMeta,
        data: Seq<u8>,
        after: ConnectionView<H>,
    ) -> bool {
        &&& data.len() > 0
        &&& self.told(Event::HandshakeDone, after)
        &&& !after.concerns(meta)
    }

    /// Whether the connection can be `after` once it has handled a packet without
    /// SYN or RST.
    pub open spec fn handles_data(
        self,
        meta: TcpMeta,
        data: Seq<u8>,
        after: ConnectionView<H>,
        did_something: bool,
    ) -> bool {
        if self.in_handshake() {
            self.past_handshake(meta).begins(meta, data, after, did_something)
        } else {
            self.transfers(meta, data, after, did_something)
        }
    }

    /// Whether no reaction of the handler to the end of the handshake can take the
    /// connection away from a packet without SYN or RST whose data are yet to be
    /// handled.
    pub open spec fn keeps_data(self, meta: TcpMeta, data: Seq<u8>) -> bool {
        self.in_handshake() ==> self.past_handshake(meta).holds_on(meta, data)
    }

    /// Whether the connection can be `after` once it has handled a packet.
    pub open spec fn handles(
        self,
        meta: TcpMeta,
        data: Seq<u8>,
        after: ConnectionView<H>,
        did_something: bool,
    ) -> bool {
        if meta.flags.syn {
            after == self.after_syn(meta) && did_something == self.takes_syn(meta)
        } else if meta.flags.rst {
            after == self.after_rst(meta) && did_something
        } else {
            self.handles_data(meta, data, after, did_something)
        }
    }
}

} // verus!
