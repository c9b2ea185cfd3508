//! A TCP connection, as the packets of it that are seen reveal it.

use vstd::prelude::*;

use crate::direction::Direction;
use crate::flow_table::{Flow, FlowCompare};
use crate::handler::{ConnectionHandler, Event};
use crate::meta::TcpMeta;
use crate::model::{is_random_uuid, next_seq, ConnectionView};
use crate::stream::Stream;

verus! {

/// TCP handshake state
#[derive(Debug)]
pub enum ConnectionState {
    /// not yet initialized
    Uninitialized,
    /// SYN read, expect SYN/ACK
    SynSent {
        /// sequence number of initial SYN
        seq_no: u32,
    },
    /// SYN/ACK read, expect ACK
    SynReceived {
        /// sequence number of SYN/ACK
        seq_no: u32,
        /// acknowledgment number of SYN/ACK
        ack_no: u32,
        /// window size of SYN/ACK
        window_size: u16,
        /// whether or not we saw the first SYN
        syn_seen: bool,
    },
    /// handshake complete, connection established
    Established {
        /// initial sequence number of forward direction
        forward_isn: u32,
        /// initial sequence number of reverse direction
        reverse_isn: u32,
    },
    /// connection closed
    Closed,
}

/// object representing TCP connection
pub struct Connection<H> {
    /// unique identifier for connection: the number that the octets of a UUID
    /// spell in network byte order
    pub uuid: u128,
    /// forward direction flow identifier
    pub forward_flow: Flow,
    /// state of connection handshake
    pub conn_state: ConnectionState,
    /// whether the full 3-way handshake was observed
    pub observed_handshake: bool,
    /// whether the connection close was observed (either by FIN or RST)
    pub observed_close: bool,
    /// forward direction stream
    pub forward_stream: Stream,
    /// reverse direction stream
    pub reverse_stream: Stream,
    /// event handler object
    pub event_handler: Option<H>,
}

/// result from Connection::handle_packet
pub enum HandlePacketResult {
    /// everything was fine, probably
    Fine,
}

impl<H> View for Connection<H> {
    type V = ConnectionView<H>;

    open spec fn view(&self) -> ConnectionView<H> {
        ConnectionView {
            uuid: self.uuid,
            forward_flow: self.forward_flow,
            conn_state: self.conn_state,
            observed_handshake: self.observed_handshake,
            observed_close: self.observed_close,
            forward_stream: self.forward_stream@,
            reverse_stream: self.reverse_stream@,
            event_handler: self.event_handler,
        }
    }
}

impl<H> Connection<H> {
    /// The connection as a handler is handed it: without one.
    pub open spec fn without_handler(self) -> Connection<H> {
        Connection { event_handler: None, ..self }
    }

    /// The connection with `handler` in charge of its events.
    pub open spec fn with_handler(self, handler: H) -> Connection<H> {
        Connection { event_handler: Some(handler), ..self }
    }
}

/// Draws the number of a fresh random UUID, by `uuid::Uuid::new_v4`, read with
/// `as_u128`. Taken on trust: version and variant are those of a random UUID. The
/// other bits come from the operating system's random number generator, so
/// nothing is claimed of them; without such a generator the call panics.
#[verifier::external_body]
fn new_uuid() -> (bits: u128)
    ensures
        is_random_uuid(bits),
{
    uuid::Uuid::new_v4().as_u128()
}

impl<H: ConnectionHandler> Connection<H> {
    /// create new connection with flow
    pub fn new(forward_flow: Flow) -> (conn: Connection<H>)
        ensures
            exists|uuid: u128, conn_after: ConnectionView<H>, handler: H|
                {
                    &&& is_random_uuid(uuid)
                    &&& #[trigger] H::creates(
                        ConnectionView::unseen(uuid, forward_flow),
                        conn_after,
                        handler,
                    )
                    &&& conn@ == conn_after.with_handler(handler)
                },
    {
        let mut conn = Connection {
            uuid: new_uuid(),
            forward_flow,
            conn_state: ConnectionState::Uninitialized,
            observed_handshake: false,
            observed_close: false,
            forward_stream: Stream::new(),
            reverse_stream: Stream::new(),
            event_handler: None,
        };
        assert(conn@ == ConnectionView::<H>::unseen(conn.uuid, forward_flow));
        let handler = H::new(&mut conn);
        conn.event_handler = Some(handler);
        conn
    }

    /// handle a packet supposedly belonging to this connection; a packet that ends
    /// the handshake and carries data must still belong to it once the handler has
    /// heard of that (`try_handle_packet` asks for neither)
    pub fn handle_packet(&mut self, meta: TcpMeta, data: &[u8]) -> (did_something: bool)
        requires
            old(self)@.concerns(meta),
            !meta.flags.syn && !meta.flags.rst ==> old(self)@.keeps_data(meta, data@),
        ensures
            old(self)@.handles(meta, data@, final(self)@, did_something),
    {
        if meta.flags.syn {
            self.handle_syn(meta)
        } else if meta.flags.rst {
            self.handle_rst(meta)
        } else {
            // FIN packets handled here too, as they may carry data
            self.handle_data(meta, data)
        }
    }

    /// handle packet with SYN flag
    pub fn handle_syn(&mut self, meta: TcpMeta) -> (did_something: bool)
        requires
            meta.flags.syn,
        ensures
            final(self)@ == old(self)@.after_syn(meta),
            did_something == old(self)@.takes_syn(meta),
            !did_something ==> *final(self) == *old(self),
    {
        match self.conn_state {
            ConnectionState::Uninitialized => {
                if meta.flags.ack {
                    // SYN/ACK
                    self.conn_state = ConnectionState::SynReceived {
                        seq_no: meta.seq_number,
                        ack_no: meta.ack_number,
                        window_size: meta.window,
                        syn_seen: false,
                    };
                    if let Some(scale) = meta.option_window_scale {
                        self.reverse_stream.window_scale = scale;
                    }
                    if self.forward_flow.compare_tcp_meta(&meta) == FlowCompare::Forward {
                        // SYN/ACK is expected server -> client
                        self.forward_flow.reverse();
                    }
                    true
                } else {
                    // first SYN
                    self.conn_state = ConnectionState::SynSent { seq_no: meta.seq_number };
                    if let Some(scale) = meta.option_window_scale {
                        self.forward_stream.window_scale = scale;
                    }
                    if self.forward_flow.compare_tcp_meta(&meta) == FlowCompare::Reverse {
                        // SYN is expected client -> server
                        self.forward_flow.reverse();
                    }
                    true
                }
            },
            ConnectionState::SynSent { .. } => {
                // expect: SYN/ACK
                if meta.flags.ack {
                    if self.forward_flow.compare_tcp_meta(&meta) != FlowCompare::Reverse {
                        // wrong direction?
                        false
                    } else {
                        // accepted even if it does not acknowledge the SYN that was seen
                        self.conn_state = ConnectionState::SynReceived {
                            seq_no: meta.seq_number,
                            ack_no: meta.ack_number,
                            window_size: meta.window,
                            syn_seen: true,
                        };
                        if let Some(scale) = meta.option_window_scale {
                            self.reverse_stream.window_scale = scale;
                        }
                        true
                    }
                } else {
                    // likely duplicate SYN
                    false
                }
            },
            // either duplicate SYN or SYN/ACK, or out of place: ignore
            _ => false,
        }
    }

    /// whether a packet acknowledges the SYN that was seen, if the handshake waits
    /// for that
    pub fn acknowledges_syn(&self, meta: &TcpMeta) -> (acknowledged: bool)
        ensures
            acknowledged == (self@.conn_state matches ConnectionState::SynSent { seq_no }
                ==> meta.ack_number == next_seq(seq_no)),
    {
        match self.conn_state {
            ConnectionState::SynSent { seq_no } => meta.ack_number == seq_no.wrapping_add(1),
            _ => true,
        }
    }

    /// handle packet with RST flag
    pub fn handle_rst(&mut self, meta: TcpMeta) -> (did_something: bool)
        requires
            meta.flags.rst,
            old(self)@.concerns(meta),
        ensures
            final(self)@ == old(self)@.after_rst(meta),
            did_something,
    {
        match self.forward_flow.compare_tcp_meta(&meta) {
            FlowCompare::Forward => {
                self.forward_stream.had_reset = true;
            },
            _ => {
                self.reverse_stream.had_reset = true;
            },
        }
        self.conn_state = ConnectionState::Closed;
        self.observed_close = true;
        true
    }

    /// handle a packet that may belong to this connection; returns nothing if it
    /// does not, and leaves the connection alone, or if the handler has turned the
    /// connection to another flow before the packet's data could be handled
    pub fn try_handle_packet(&mut self, meta: TcpMeta, data: &[u8]) -> (did_something: Option<bool>)
        ensures
            match did_something {
                Some(did_something) => old(self)@.concerns(meta) && old(self)@.handles(
                    meta,
                    data@,
                    final(self)@,
                    did_something,
                ),
                None => if old(self)@.concerns(meta) {
                    &&& !meta.flags.syn && !meta.flags.rst
                    &&& old(self)@.in_handshake()
                    &&& old(self)@.past_handshake(meta).strays(meta, data@, final(self)@)
                } else {
                    *final(self) == *old(self)
                },
            },
    {
        if self.forward_flow.compare_tcp_meta(&meta) == FlowCompare::Unrelated {
            return None;
        }
        if meta.flags.syn {
            return Some(self.handle_syn(meta));
        }
        if meta.flags.rst {
            return Some(self.handle_rst(meta));
        }
        match self.conn_state {
            ConnectionState::Uninitialized | ConnectionState::SynSent { .. } => {
                self.establish(meta, 0, 0);
            },
            ConnectionState::SynReceived { seq_no, ack_no, window_size, syn_seen } => {
                self.establish_after_syn_ack(meta, seq_no, ack_no, window_size, syn_seen);
            },
            _ => {
                return Some(self.handle_data_established(meta, data));
            },
        }
        self.report_handshake();
        if data.is_empty() {
            Some(true)
        } else if self.forward_flow.compare_tcp_meta(&meta) == FlowCompare::Unrelated {
            None
        } else {
            Some(self.handle_data_established(meta, data))
        }
    }

    /// handle data packet received before SYN/ACK
    pub fn handle_data_hs1(&mut self, meta: TcpMeta, data: &[u8]) -> (did_something: bool)
        requires
            old(self)@.concerns(meta),
            old(self)@.established(meta, 0, 0, false).holds_on(meta, data@),
        ensures
            old(self)@.established(meta, 0, 0, false).begins(
                meta,
                data@,
                final(self)@,
                did_something,
            ),
    {
        self.establish(meta, 0, 0);
        self.report_handshake();
        if !data.is_empty() {
            self.handle_data_established(meta, data)
        } else {
            true
        }
    }

    /// handle data packet received after SYN/ACK
    pub fn handle_data_hs2(
        &mut self,
        meta: TcpMeta,
        data: &[u8],
        seq_no: u32,
        ack_no: u32,
        forward_window: u16,
        syn_seen: bool,
    ) -> (did_something: bool)
        requires
            old(self)@.concerns(meta),
            old(self)@.established_after_syn_ack(
                meta,
                seq_no,
                ack_no,
                forward_window,
                syn_seen,
            ).holds_on(meta, data@),
        ensures
            old(self)@.established_after_syn_ack(
                meta,
                seq_no,
                ack_no,
                forward_window,
                syn_seen,
            ).begins(meta, data@, final(self)@, did_something),
    {
        self.establish_after_syn_ack(meta, seq_no, ack_no, forward_window, syn_seen);
        self.report_handshake();
        if !data.is_empty() {
            self.handle_data_established(meta, data)
        } else {
            true
        }
    }

    /// take the numbers at which the streams start from a packet
    fn establish(&mut self, meta: TcpMeta, forward_window: u16, reverse_window: u16)
        requires
            old(self)@.concerns(meta),
        ensures
            final(self)@ == old(self)@.established(meta, forward_window, reverse_window, false),
    {
        let (forward_isn, reverse_isn) = match self.forward_flow.compare_tcp_meta(&meta) {
            FlowCompare::Forward => (meta.seq_number, meta.ack_number),
            _ => (meta.ack_number, meta.seq_number),
        };
        self.conn_state = ConnectionState::Established { forward_isn, reverse_isn };
        self.forward_stream.set_isn(forward_isn, forward_window);
        self.reverse_stream.set_isn(reverse_isn, reverse_window);
    }

    /// take the numbers at which the streams start from a packet after SYN/ACK,
    /// and see whether it completes the handshake
    fn establish_after_syn_ack(
        &mut self,
        meta: TcpMeta,
        seq_no: u32,
        ack_no: u32,
        forward_window: u16,
        syn_seen: bool,
    )
        requires
            old(self)@.concerns(meta),
        ensures
            final(self)@ == old(self)@.established_after_syn_ack(
                meta,
                seq_no,
                ack_no,
                forward_window,
                syn_seen,
            ),
    {
        let mut reverse_window: u16 = 0;
        // sequence numbers wrap around
        if self.forward_flow.compare_tcp_meta(&meta) == FlowCompare::Forward && meta.flags.ack
            && meta.seq_number == ack_no && meta.ack_number == seq_no.wrapping_add(1) && syn_seen {
            self.observed_handshake = true;
            reverse_window = meta.window;
        }
        self.establish(meta, forward_window, reverse_window);
    }

    /// call the event handler for the end of the handshake
    fn report_handshake(&mut self)
        ensures
            old(self)@.told(Event::HandshakeDone, final(self)@),
    {
        self.call_handler(
            |conn: &mut Self, h: &mut H|
                ensures
                    H::reacts(Event::HandshakeDone, *old(h), old(conn)@, *final(h), final(conn)@)
                { h.handshake_done(conn) },
        );
    }

    /// handle data after handshake is completed
    pub fn handle_data_established(&mut self, meta: TcpMeta, data: &[u8]) -> (did_something: bool)
        requires
            old(self)@.concerns(meta),
        ensures
            old(self)@.transfers(meta, data@, final(self)@, did_something),
    {
        let dir: Direction;
        let (data_stream, ack_stream) = match self.forward_flow.compare_tcp_meta(&meta) {
            FlowCompare::Forward => {
                dir = Direction::Forward;
                (&mut self.forward_stream, &mut self.reverse_stream)
            },
            _ => {
                dir = Direction::Reverse;
                (&mut self.reverse_stream, &mut self.forward_stream)
            },
        };
        let mut did_something = false;
        let mut got_data = false;
        if !data.is_empty() {
            // write data to stream
            got_data = data_stream.handle_data_packet(meta.seq_number, data);
            did_something = got_data;
        }
        let mut ack_stream_got_end = false;
        if meta.flags.ack {
            let was_ended = ack_stream.has_ended;
            // send ack to the stream in the opposite direction
            let got_ack = ack_stream.handle_ack_packet(meta.ack_number, meta.window);
            did_something = did_something || got_ack;
            ack_stream_got_end = !was_ended && ack_stream.has_ended;
        }
        let data_stream_has_ended = data_stream.has_ended;
        let mut got_fin = false;
        if meta.flags.fin {
            // notify stream of fin
            got_fin = data_stream.handle_fin_packet(meta.seq_number, data.len());
            did_something = did_something || got_fin;
        }
        proof {
            let stream = old(self)@.stream(dir);
            assert(data@.len() == 0 ==> stream.with_data(meta.seq_number, data@).received
                =~= stream.received);
        }
        assert(self@ == old(self)@.moved(meta, data@));
        assert(did_something == (got_data || old(self)@.brings_ack(meta) || got_fin));
        // call event handlers
        self.report(dir, got_data, got_fin, ack_stream_got_end, data_stream_has_ended);
        did_something
    }

    /// call the event handlers for what a packet in direction `dir` brought, and
    /// close the connection if it ended the last direction open
    fn report(
        &mut self,
        dir: Direction,
        got_data: bool,
        got_fin: bool,
        got_end: bool,
        last_open: bool,
    )
        ensures
            old(self)@.reported(dir, got_data, got_fin, got_end, last_open, final(self)@),
    {
        if got_data {
            self.report_data(dir);
        }
        let ghost heard = self@;
        assert(old(self)@.told_if(got_data, Event::DataReceived(dir), heard));
        if got_fin {
            self.report_fin(dir);
        }
        let ghost finished = self@;
        assert(heard.told_if(got_fin, Event::FinReceived(dir), finished));
        if got_end {
            self.report_end(dir.swap());
        }
        let ghost ended = self@;
        assert(finished.told_if(got_end, Event::StreamEnd(dir.opposite()), ended));
        // update state if both sides closed
        if got_end && last_open {
            self.conn_state = ConnectionState::Closed;
            self.observed_close = true;
        }
    }

    /// call the event handler for new data
    fn report_data(&mut self, dir: Direction)
        ensures
            old(self)@.told(Event::DataReceived(dir), final(self)@),
    {
        self.call_handler(
            |conn: &mut Self, h: &mut H|
                ensures
                    H::reacts(
                        Event::DataReceived(dir),
                        *old(h),
                        old(conn)@,
                        *final(h),
                        final(conn)@,
                    )
                { h.data_received(conn, dir) },
        );
    }

    /// call the event handler for a FIN
    fn report_fin(&mut self, dir: Direction)
        ensures
            old(self)@.told(Event::FinReceived(dir), final(self)@),
    {
        self.call_handler(
            |conn: &mut Self, h: &mut H|
                ensures
                    H::reacts(
                        Event::FinReceived(dir),
                        *old(h),
                        old(conn)@,
                        *final(h),
                        final(conn)@,
                    )
                { h.fin_received(conn, dir) },
        );
    }

    /// call the event handler for the end of a stream
    fn report_end(&mut self, dir: Direction)
        ensures
            old(self)@.told(Event::StreamEnd(dir), final(self)@),
    {
        self.call_handler(
            |conn: &mut Self, h: &mut H|
                ensures
                    H::reacts(
                        Event::StreamEnd(dir),
                        *old(h),
                        old(conn)@,
                        *final(h),
                        final(conn)@,
                    )
                { h.stream_end(conn, dir) },
        );
    }

    /// handle ordinary data packet
    pub fn handle_data(&mut self, meta: TcpMeta, data: &[u8]) -> (did_something: bool)
        requires
            old(self)@.concerns(meta),
            old(self)@.keeps_data(meta, data@),
        ensures
            old(self)@.handles_data(meta, data@, final(self)@, did_something),
    {
        match self.conn_state {
            ConnectionState::Uninitialized | ConnectionState::SynSent { .. } => {
                self.handle_data_hs1(meta, data)
            },
            ConnectionState::SynReceived { seq_no, ack_no, window_size, syn_seen } => {
                self.handle_data_hs2(meta, data, seq_no, ack_no, window_size, syn_seen)
            },
            _ => {
                // established or (closed but more data)
                self.handle_data_established(meta, data)
            },
        }
    }

    /// call the event handler, if one exists
    pub fn call_handler(&mut self, do_thing: impl FnOnce(&mut Self, &mut H))
        requires
            old(self).event_handler matches Some(handler) ==> forall|conn: &mut Self, h: &mut H|
                *conn == old(self).without_handler() && *h == handler
                    ==> #[trigger] do_thing.requires((conn, h)),
        ensures
            match old(self).event_handler {
                None => *final(self) == *old(self),
                Some(handler) => exists|conn: &mut Self, h: &mut H|
                    {
                        &&& *conn == old(self).without_handler()
                        &&& *h == handler
                        &&& #[trigger] do_thing.ensures((conn, h), ())
                        &&& *final(self) == final(conn).with_handler(*final(h))
                    },
            },
    {
        if let Some(mut handler) = self.event_handler.take() {
            do_thing(self, &mut handler);
            self.event_handler = Some(handler);
        }
    }

    /// called before connection is removed from hashtable
    pub fn will_retire(&mut self)
        ensures
            old(self)@.told(Event::WillRetire, final(self)@),
    {
        self.call_handler(
            |conn: &mut Self, h: &mut H|
                ensures
                    H::reacts(Event::WillRetire, *old(h), old(conn)@, *final(h), final(conn)@)
                { h.will_retire(conn) },
        );
    }
}

} // verus!
