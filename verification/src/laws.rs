//! What holds of every connection, whatever its packets.

use vstd::prelude::*;

use crate::connection::ConnectionState;
use crate::direction::Direction;
use crate::flow_table::{flow_of, Flow, FlowCompare};
use crate::handler::{ConnectionHandler, Event};
use crate::meta::TcpMeta;
use crate::model::{next_seq, ConnectionView};
use crate::reassembly::{is_prefix_length, lemma_prefix_length};
use crate::stream::{seq_distance, StreamView};

verus! {

/// Turning a direction around twice gives it back, and once never does.
pub proof fn law_swap_is_an_involution(direction: Direction)
    ensures
        direction.opposite().opposite() == direction,
        direction.opposite() != direction,
{
}

/// Exchanging the endpoints of a flow twice gives it back. Doing so once
/// exchanges what travels along and what travels against it, unless both
/// endpoints are the same.
pub proof fn law_reversed_flow(flow: Flow, meta: TcpMeta)
    ensures
        flow.reversed().reversed() == flow,
        flow.reversed() != flow ==> flow.reversed().relation(meta) == match flow.relation(meta) {
            FlowCompare::Forward => FlowCompare::Reverse,
            FlowCompare::Reverse => FlowCompare::Forward,
            FlowCompare::Unrelated => FlowCompare::Unrelated,
        },
        flow.reversed() == flow ==> flow.relation(meta) != FlowCompare::Reverse,
{
}

/// A byte that has been received is never replaced.
pub proof fn law_received_bytes_stay(stream: StreamView, seq: u32, data: Seq<u8>, pos: int)
    requires
        stream.received.contains_key(pos),
    ensures
        stream.with_data(seq, data).received.contains_key(pos),
        stream.with_data(seq, data).received[pos] == stream.received[pos],
{
}

/// Data that come in where the readable bytes end become readable as a whole, and
/// where nothing was received behind them they are then the last readable bytes.
pub proof fn law_data_in_order_become_readable(
    stream: StreamView,
    readable: nat,
    seq: u32,
    data: Seq<u8>,
)
    requires
        is_prefix_length(stream.received, readable),
        seq == (stream.isn + readable) % 0x1_0000_0000,
    ensures
        forall|pos: int|
            0 <= pos < readable + data.len() ==> #[trigger] stream.with_data(
                seq,
                data,
            ).received.contains_key(pos),
        (forall|pos: int| readable <= pos ==> !stream.received.contains_key(pos)) ==> {
            &&& is_prefix_length(stream.with_data(seq, data).received, readable + data.len())
            &&& forall|i: int|
                0 <= i < data.len() ==> #[trigger] stream.with_data(seq, data).received[readable
                    + i] == data[i]
        },
{
    lemma_prefix_length(stream.received, readable);
    assert(stream.offset_of(seq) == readable) by {
        assert((seq as int - (stream.isn + readable)) % 0x1_0000_0000 == 0) by {
            vstd::arithmetic::div_mod::lemma_fundamental_div_mod(
                stream.isn + readable,
                0x1_0000_0000,
            );
            vstd::arithmetic::div_mod::lemma_mod_multiples_basic(
                -((stream.isn + readable) / 0x1_0000_0000),
                0x1_0000_0000,
            );
        }
    }
}

/// The first SYN fixes which direction is the forward one: a SYN travels forward,
/// and a SYN/ACK whose SYN was missed travels in reverse, unless both endpoints are
/// the same.
pub proof fn law_syn_fixes_direction<H>(conn: ConnectionView<H>, meta: TcpMeta)
    requires
        conn.conn_state is Uninitialized,
        conn.concerns(meta),
        meta.flags.syn,
    ensures
        !meta.flags.ack ==> conn.after_syn(meta).direction(meta) == Direction::Forward,
        meta.flags.ack && flow_of(meta) != flow_of(meta).reversed() ==> conn.after_syn(
            meta,
        ).direction(meta) == Direction::Reverse,
        conn.after_syn(meta).concerns(meta),
{
}

/// A SYN is taken only once, and so is a SYN/ACK: after a SYN no other SYN counts,
/// and after a SYN/ACK neither counts.
pub proof fn law_duplicate_syn_is_ignored<H>(conn: ConnectionView<H>, meta: TcpMeta, later: TcpMeta)
    requires
        conn.takes_syn(meta),
    ensures
        !later.flags.ack ==> !conn.after_syn(meta).takes_syn(later),
        meta.flags.ack ==> !conn.after_syn(meta).takes_syn(later),
{
}

/// A packet of which a connection says that it did nothing has left it as it was.
/// Of a packet that ends the handshake this holds under a handler that only
/// watches, of any other packet whatever the handler does.
pub proof fn law_ignored_packet_changes_nothing<H: ConnectionHandler>(
    conn: ConnectionView<H>,
    meta: TcpMeta,
    data: Seq<u8>,
    after: ConnectionView<H>,
)
    requires
        conn.handles(meta, data, after, false),
        meta.flags.syn || progress(conn.conn_state) >= 3 || only_watches::<H>(),
    ensures
        after == conn,
{
    if !meta.flags.syn && !meta.flags.rst {
        if progress(conn.conn_state) < 3 {
            law_first_data_are_readable(conn, meta, data, after, false);
        } else {
            lemma_no_effect(conn, meta, data);
        }
    }
}

/// A packet that brings nothing moves neither stream.
proof fn lemma_no_effect<H>(conn: ConnectionView<H>, meta: TcpMeta, data: Seq<u8>)
    requires
        !conn.brings_data(meta, data),
        !conn.brings_ack(meta),
        !conn.brings_fin(meta),
    ensures
        conn.moved(meta, data) == conn,
        !conn.brings_end(meta),
{
    let stream = conn.stream(conn.direction(meta));
    assert(stream.with_data(meta.seq_number, data).received =~= stream.received);
}

/// The handler of a connection stays in charge of its events, whatever it does
/// when it hears of them.
pub proof fn law_handler_stays<H: ConnectionHandler>(
    conn: ConnectionView<H>,
    meta: TcpMeta,
    data: Seq<u8>,
    after: ConnectionView<H>,
    did_something: bool,
)
    requires
        conn.handles(meta, data, after, did_something),
    ensures
        after.event_handler is Some == conn.event_handler is Some,
{
}

/// Whether handlers of this kind only ever look at the connection that they are
/// handed.
pub open spec fn only_watches<H: ConnectionHandler>() -> bool {
    forall|
        event: Event,
        handler: H,
        conn: ConnectionView<H>,
        handler_after: H,
        conn_after: ConnectionView<H>,
    | #[trigger]
        H::reacts(event, handler, conn, handler_after, conn_after) ==> conn_after == conn
}

/// An established connection after a packet, as a handler that only watches
/// leaves it.
pub open spec fn transferred<H>(
    conn: ConnectionView<H>,
    meta: TcpMeta,
    data: Seq<u8>,
) -> ConnectionView<H> {
    if conn.brings_end(meta) && conn.stream(conn.direction(meta)).has_ended {
        conn.moved(meta, data).closed()
    } else {
        conn.moved(meta, data)
    }
}

/// A connection that a packet has just established, as the rest of the packet and
/// a handler that only watches leave it.
pub open spec fn begun<H>(
    conn: ConnectionView<H>,
    meta: TcpMeta,
    data: Seq<u8>,
) -> ConnectionView<H> {
    if data.len() > 0 {
        transferred(conn, meta, data)
    } else {
        conn
    }
}

/// A connection after a packet, as a handler that only watches leaves it.
pub open spec fn outcome<H>(
    conn: ConnectionView<H>,
    meta: TcpMeta,
    data: Seq<u8>,
) -> ConnectionView<H> {
    if meta.flags.syn {
        conn.after_syn(meta)
    } else if meta.flags.rst {
        conn.after_rst(meta)
    } else if conn.in_handshake() {
        begun(conn.past_handshake(meta), meta, data)
    } else {
        transferred(conn, meta, data)
    }
}

/// Whether a packet does something to a connection whose handler only watches.
pub open spec fn effective<H>(conn: ConnectionView<H>, meta: TcpMeta, data: Seq<u8>) -> bool {
    if meta.flags.syn {
        conn.takes_syn(meta)
    } else if meta.flags.rst || conn.in_handshake() {
        true
    } else {
        conn.brings_data(meta, data) || conn.brings_ack(meta) || conn.brings_fin(meta)
    }
}

/// What an established connection makes of a packet, under a handler that only
/// watches.
pub proof fn lemma_watched_transfer<H: ConnectionHandler>(
    conn: ConnectionView<H>,
    meta: TcpMeta,
    data: Seq<u8>,
    after: ConnectionView<H>,
    did_something: bool,
)
    requires
        only_watches::<H>(),
        conn.transfers(meta, data, after, did_something),
    ensures
        after.without_handler() == transferred(conn, meta, data).without_handler(),
{
    let direction = conn.direction(meta);
    let moved = conn.moved(meta, data);
    let (heard, finished, ended) = choose|
        heard: ConnectionView<H>,
        finished: ConnectionView<H>,
        ended: ConnectionView<H>,
    |
        {
            &&& #[trigger] moved.told_if(
                conn.brings_data(meta, data),
                Event::DataReceived(direction),
                heard,
            )
            &&& #[trigger] heard.told_if(
                conn.brings_fin(meta),
                Event::FinReceived(direction),
                finished,
            )
            &&& #[trigger] finished.told_if(
                conn.brings_end(meta),
                Event::StreamEnd(direction.opposite()),
                ended,
            )
            &&& after == if conn.brings_end(meta) && conn.stream(direction).has_ended {
                ended.closed()
            } else {
                ended
            }
        };
    assert(heard.without_handler() == moved.without_handler());
    assert(finished.without_handler() == heard.without_handler());
    assert(ended.without_handler() == finished.without_handler());
}

/// What a packet carries is judged without regard to the handler.
proof fn lemma_handler_is_irrelevant<H>(
    conn: ConnectionView<H>,
    other: ConnectionView<H>,
    meta: TcpMeta,
    data: Seq<u8>,
)
    requires
        conn.without_handler() == other.without_handler(),
    ensures
        begun(conn, meta, data).without_handler() == begun(other, meta, data).without_handler(),
        conn.brings_data(meta, data) == other.brings_data(meta, data),
{
}

proof fn lemma_watched_begin<H: ConnectionHandler>(
    conn: ConnectionView<H>,
    meta: TcpMeta,
    data: Seq<u8>,
    after: ConnectionView<H>,
    did_something: bool,
)
    requires
        only_watches::<H>(),
        conn.begins(meta, data, after, did_something),
    ensures
        after.without_handler() == begun(conn, meta, data).without_handler(),
        did_something == (data.len() > 0 ==> conn.brings_data(meta, data) || conn.brings_ack(meta)
            || conn.brings_fin(meta)),
{
    let open = choose|open: ConnectionView<H>|
        {
            &&& #[trigger] conn.told(Event::HandshakeDone, open)
            &&& if data.len() > 0 {
                open.concerns(meta) && open.transfers(meta, data, after, did_something)
            } else {
                after == open && did_something
            }
        };
    assert(open.without_handler() == conn.without_handler());
    lemma_handler_is_irrelevant(conn, open, meta, data);
    if data.len() > 0 {
        lemma_watched_transfer(open, meta, data, after, did_something);
    }
}

/// The first byte of a packet that ends the handshake is new.
proof fn lemma_first_byte_is_new<H>(conn: ConnectionView<H>, meta: TcpMeta, data: Seq<u8>)
    requires
        conn.in_handshake(),
    ensures
        ({
            let start = conn.past_handshake(meta);
            let stream = start.stream(start.direction(meta));
            &&& start.direction(meta) == conn.direction(meta)
            &&& stream.received == Map::<int, u8>::empty()
            &&& stream.offset_of(meta.seq_number) == 0
            &&& start.brings_data(meta, data) == (data.len() > 0)
            &&& !start.brings_end(meta)
        }),
{
    let start = conn.past_handshake(meta);
    let stream = start.stream(start.direction(meta));
    assert(is_prefix_length(stream.received, 0));
    lemma_prefix_length(stream.received, 0);
    assert(stream.isn == meta.seq_number);
    assert(!stream.received.contains_key(0));
}

/// Under a handler that only watches, what a packet does to a connection, but for
/// the handler itself, and whether it does anything, depend on the connection and
/// the packet alone.
pub proof fn law_watched_connection_has_one_outcome<H: ConnectionHandler>(
    conn: ConnectionView<H>,
    meta: TcpMeta,
    data: Seq<u8>,
    after: ConnectionView<H>,
    did_something: bool,
)
    requires
        only_watches::<H>(),
        conn.handles(meta, data, after, did_something),
    ensures
        after.without_handler() == outcome(conn, meta, data).without_handler(),
        did_something == effective(conn, meta, data),
{
    if !meta.flags.syn && !meta.flags.rst {
        if conn.in_handshake() {
            lemma_watched_begin(conn.past_handshake(meta), meta, data, after, did_something);
            lemma_first_byte_is_new(conn, meta, data);
        } else {
            lemma_watched_transfer(conn, meta, data, after, did_something);
        }
    }
}

/// How far a connection has come.
pub open spec fn progress(state: ConnectionState) -> int {
    match state {
        ConnectionState::Uninitialized => 0,
        ConnectionState::SynSent { .. } => 1,
        ConnectionState::SynReceived { .. } => 2,
        ConnectionState::Established { .. } => 3,
        ConnectionState::Closed => 4,
    }
}

/// Under a handler that only watches, a connection never goes back: the numbers of
/// a state stay as long as the state does, what it has observed it has observed for
/// good, a closed connection stays closed, and it keeps its identifier.
pub proof fn law_connection_never_goes_back<H: ConnectionHandler>(
    conn: ConnectionView<H>,
    meta: TcpMeta,
    data: Seq<u8>,
    after: ConnectionView<H>,
    did_something: bool,
)
    requires
        only_watches::<H>(),
        conn.handles(meta, data, after, did_something),
    ensures
        progress(after.conn_state) >= progress(conn.conn_state),
        progress(after.conn_state) == progress(conn.conn_state) ==> after.conn_state
            == conn.conn_state,
        conn.conn_state is Closed ==> after.conn_state is Closed,
        conn.observed_handshake ==> after.observed_handshake,
        conn.observed_close ==> after.observed_close,
        after.uuid == conn.uuid,
{
    law_watched_connection_has_one_outcome(conn, meta, data, after, did_something);
    let end = outcome(conn, meta, data);
    assert(after.conn_state == end.conn_state && after.uuid == end.uuid);
    assert(after.observed_handshake == end.observed_handshake);
    assert(after.observed_close == end.observed_close);
}

/// Under a handler that only watches, a packet never changes which packets belong
/// to the connection.
pub proof fn law_flow_stays<H: ConnectionHandler>(
    conn: ConnectionView<H>,
    meta: TcpMeta,
    data: Seq<u8>,
    after: ConnectionView<H>,
    did_something: bool,
    other: TcpMeta,
)
    requires
        only_watches::<H>(),
        conn.handles(meta, data, after, did_something),
    ensures
        after.concerns(other) == conn.concerns(other),
        !(conn.conn_state is Uninitialized && meta.flags.syn) ==> after.forward_flow
            == conn.forward_flow,
{
    law_watched_connection_has_one_outcome(conn, meta, data, after, did_something);
    assert(after.forward_flow == outcome(conn, meta, data).forward_flow);
    law_reversed_flow(conn.forward_flow, other);
}

/// Under a handler that only watches, the full handshake counts as observed only
/// when its three packets were seen: the packet at hand follows on a SYN/ACK that
/// followed on a SYN, and has the numbers that the SYN/ACK asks for.
pub proof fn law_handshake_is_observed<H: ConnectionHandler>(
    conn: ConnectionView<H>,
    meta: TcpMeta,
    data: Seq<u8>,
    after: ConnectionView<H>,
    did_something: bool,
)
    requires
        only_watches::<H>(),
        conn.handles(meta, data, after, did_something),
    ensures
        after.observed_handshake == (conn.observed_handshake || {
            &&& !meta.flags.syn && !meta.flags.rst
            &&& conn.conn_state matches ConnectionState::SynReceived {
                seq_no,
                ack_no,
                window_size,
                syn_seen,
            } && conn.completes_handshake(meta, seq_no, ack_no, syn_seen)
        }),
{
    law_watched_connection_has_one_outcome(conn, meta, data, after, did_something);
    assert(after.observed_handshake == outcome(conn, meta, data).observed_handshake);
}

/// What holds of the parts of a connection together: a close is observed exactly
/// when the connection is closed, it is closed exactly when a direction was reset
/// or both have ended, and before the connection is established neither direction
/// has ended and no full handshake was observed.
pub open spec fn coherent<H>(conn: ConnectionView<H>) -> bool {
    let reset = conn.forward_stream.had_reset || conn.reverse_stream.had_reset;
    let ended = conn.forward_stream.has_ended && conn.reverse_stream.has_ended;
    &&& conn.observed_close == (conn.conn_state is Closed)
    &&& conn.conn_state is Closed == (reset || ended)
    &&& progress(conn.conn_state) < 3 ==> {
        &&& !conn.observed_handshake
        &&& !conn.forward_stream.has_ended
        &&& !conn.reverse_stream.has_ended
    }
}

/// A connection of which nothing was seen is coherent.
pub proof fn law_unseen_connection_is_coherent<H>(uuid: u128, flow: Flow)
    ensures
        coherent(ConnectionView::<H>::unseen(uuid, flow)),
{
}

/// Under a handler that only watches, every packet keeps a connection coherent.
pub proof fn law_connection_stays_coherent<H: ConnectionHandler>(
    conn: ConnectionView<H>,
    meta: TcpMeta,
    data: Seq<u8>,
    after: ConnectionView<H>,
    did_something: bool,
)
    requires
        only_watches::<H>(),
        coherent(conn),
        conn.handles(meta, data, after, did_something),
    ensures
        coherent(after),
{
    law_watched_connection_has_one_outcome(conn, meta, data, after, did_something);
    let end = outcome(conn, meta, data);
    assert(coherent(end));
    assert(after.forward_stream == end.forward_stream && after.reverse_stream
        == end.reverse_stream);
    assert(after.conn_state == end.conn_state && after.observed_close == end.observed_close);
    assert(after.observed_handshake == end.observed_handshake);
}

/// Under a handler that only watches, the packet that ends the handshake always
/// does something, and its data are the first that can be read of their
/// direction.
pub proof fn law_first_data_are_readable<H: ConnectionHandler>(
    conn: ConnectionView<H>,
    meta: TcpMeta,
    data: Seq<u8>,
    after: ConnectionView<H>,
    did_something: bool,
)
    requires
        only_watches::<H>(),
        conn.handles(meta, data, after, did_something),
        !meta.flags.syn && !meta.flags.rst,
        conn.in_handshake(),
    ensures
        did_something,
        after.conn_state is Established,
        is_prefix_length(after.stream(conn.direction(meta)).received, data.len()),
        forall|i: int|
            0 <= i < data.len() ==> #[trigger] after.stream(conn.direction(meta)).received[i]
                == data[i],
{
    law_watched_connection_has_one_outcome(conn, meta, data, after, did_something);
    lemma_first_byte_is_new(conn, meta, data);
    let direction = conn.direction(meta);
    let end = outcome(conn, meta, data);
    assert(after.stream(direction) == end.stream(direction));
    assert(after.conn_state == end.conn_state);
}

/// A SYN, the SYN/ACK that answers it and the ACK that answers that make up a
/// full handshake: each is taken, the handler hears of the end of the handshake
/// from a connection that has observed it and knows where both directions start,
/// and a handler that only watches leaves it so.
pub proof fn law_three_way_handshake<H: ConnectionHandler>(
    conn: ConnectionView<H>,
    syn: TcpMeta,
    syn_ack: TcpMeta,
    ack: TcpMeta,
    data: Seq<u8>,
    after: ConnectionView<H>,
    did_something: bool,
)
    requires
        conn.conn_state is Uninitialized,
        conn.concerns(syn),
        flow_of(syn) != flow_of(syn).reversed(),
        syn.flags.syn && !syn.flags.ack,
        syn_ack.flags.syn && syn_ack.flags.ack,
        flow_of(syn_ack) == flow_of(syn).reversed(),
        ack.flags.ack && !ack.flags.syn && !ack.flags.rst,
        flow_of(ack) == flow_of(syn),
        ack.seq_number == syn_ack.ack_number,
        ack.ack_number == next_seq(syn_ack.seq_number),
        conn.after_syn(syn).after_syn(syn_ack).handles(ack, data, after, did_something),
    ensures
        conn.takes_syn(syn),
        conn.after_syn(syn).takes_syn(syn_ack),
        ({
            let received = conn.after_syn(syn).after_syn(syn_ack);
            let done = received.established(ack, syn_ack.window, ack.window, true);
            let state = ConnectionState::Established {
                forward_isn: ack.seq_number,
                reverse_isn: ack.ack_number,
            };
            &&& done.observed_handshake
            &&& done.conn_state == state
            &&& done.forward_flow == flow_of(syn)
            &&& done.forward_stream.isn == ack.seq_number
            &&& done.reverse_stream.isn == ack.ack_number
            &&& done.begins(ack, data, after, did_something)
            &&& only_watches::<H>() ==> {
                &&& did_something
                &&& after.observed_handshake
                &&& after.conn_state == state
                &&& after.forward_flow == flow_of(syn)
            }
        }),
{
    let received = conn.after_syn(syn).after_syn(syn_ack);
    assert(conn.after_syn(syn).forward_flow == flow_of(syn));
    assert(received.forward_flow == flow_of(syn));
    if only_watches::<H>() {
        law_watched_connection_has_one_outcome(received, ack, data, after, did_something);
        lemma_first_byte_is_new(received, ack, data);
        let end = outcome(received, ack, data);
        assert(after.conn_state == end.conn_state && after.forward_flow == end.forward_flow);
        assert(after.observed_handshake == end.observed_handshake);
    }
}

/// A packet that has just been handled brings nothing when it comes again, as
/// long as its sequence number still speaks of the same offset.
pub proof fn law_retransmission_brings_nothing<H>(
    conn: ConnectionView<H>,
    meta: TcpMeta,
    data: Seq<u8>,
)
    requires
        conn.moved(meta, data).stream(conn.direction(meta)).offset_of(meta.seq_number)
            == conn.stream(conn.direction(meta)).offset_of(meta.seq_number),
    ensures
        !conn.moved(meta, data).brings_data(meta, data),
        !conn.moved(meta, data).brings_ack(meta),
        !conn.moved(meta, data).brings_fin(meta),
        !conn.moved(meta, data).brings_end(meta),
        conn.moved(meta, data).moved(meta, data) == conn.moved(meta, data),
{
    let moved = conn.moved(meta, data);
    let direction = conn.direction(meta);
    assert(moved.direction(meta) == direction);
    assert(!moved.brings_ack(meta)) by {
        let stream = conn.stream(direction.opposite());
        assert(seq_distance(meta.ack_number as int, meta.ack_number as int) == 0);
        assert(moved.stream(direction.opposite()) == conn.acknowledged(meta));
    }
    assert(!moved.brings_data(meta, data)) by {
        assert(moved.stream(direction) == conn.extended(meta, data));
    }
    lemma_no_effect(moved, meta, data);
}

} // verus!
