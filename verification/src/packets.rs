//! What each kind of packet does to a connection, field by field.

use vstd::prelude::*;

use crate::behaviour::{
    against, along, law_stream_takes_acknowledgment, law_stream_takes_data, law_stream_takes_fin,
    leads,
};
use crate::connection::ConnectionState;
use crate::direction::Direction;
use crate::handler::{ConnectionHandler, Event};
use crate::laws::{
    law_first_data_are_readable, law_watched_connection_has_one_outcome, lemma_watched_transfer,
    only_watches, outcome, transferred,
};
use crate::meta::TcpMeta;
use crate::model::ConnectionView;
use crate::runs::{events, hears, law_handler_hears_events};
use crate::stream::seq_distance;

verus! {

/// A packet with SYN is taken by a connection that has seen nothing, and, if it is a
/// SYN/ACK against the flow, by one that has seen a SYN; by no other, and then it
/// changes nothing. A SYN makes the flow one that it travels along with, leaves its
/// number in the state and its window scale with the forward stream; a SYN/ACK makes
/// the flow one that it travels against, leaves its numbers and its window in the
/// state and its window scale with the reverse stream, whether or not the SYN was
/// seen. A scale that is not announced stays, and so does everything else.
pub proof fn law_syn_packet<H: ConnectionHandler>(
    conn: ConnectionView<H>,
    meta: TcpMeta,
    data: Seq<u8>,
    after: ConnectionView<H>,
    taken: bool,
)
    requires
        (meta.flags.syn && conn.handles(meta, data, after, taken)) || (after == conn.after_syn(meta)
            && taken == conn.takes_syn(meta)),
    ensures
        taken <==> conn.conn_state is Uninitialized || (conn.conn_state is SynSent
            && meta.flags.ack && against(conn.forward_flow, meta) && !along(
            conn.forward_flow,
            meta,
        )),
        !taken ==> after == conn,
        // state
        taken && !meta.flags.ack ==> after.conn_state == (ConnectionState::SynSent {
            seq_no: meta.seq_number,
        }),
        taken && meta.flags.ack ==> after.conn_state == (ConnectionState::SynReceived {
            seq_no: meta.seq_number,
            ack_no: meta.ack_number,
            window_size: meta.window,
            syn_seen: conn.conn_state is SynSent,
        }),
        // orientation
        taken && !meta.flags.ack && (along(conn.forward_flow, meta) || against(
            conn.forward_flow,
            meta,
        )) ==> along(after.forward_flow, meta),
        taken && meta.flags.ack && (along(conn.forward_flow, meta) || against(
            conn.forward_flow,
            meta,
        )) ==> against(after.forward_flow, meta),
        !along(conn.forward_flow, meta) && !against(conn.forward_flow, meta)
            ==> after.forward_flow == conn.forward_flow,
        // window scales
        taken && !meta.flags.ack ==> {
            &&& after.reverse_stream == conn.reverse_stream
            &&& meta.option_window_scale is None ==> after.forward_stream == conn.forward_stream
            &&& meta.option_window_scale is Some ==> after.forward_stream.window_scale
                == meta.option_window_scale->Some_0
        },
        taken && meta.flags.ack ==> {
            &&& after.forward_stream == conn.forward_stream
            &&& meta.option_window_scale is None ==> after.reverse_stream == conn.reverse_stream
            &&& meta.option_window_scale is Some ==> after.reverse_stream.window_scale
                == meta.option_window_scale->Some_0
        },
        // nothing else
        after.forward_stream.received == conn.forward_stream.received,
        after.forward_stream.isn == conn.forward_stream.isn,
        after.forward_stream.acked == conn.forward_stream.acked,
        after.forward_stream.window == conn.forward_stream.window,
        after.forward_stream.fin == conn.forward_stream.fin,
        after.forward_stream.had_reset == conn.forward_stream.had_reset,
        after.forward_stream.has_ended == conn.forward_stream.has_ended,
        after.reverse_stream.received == conn.reverse_stream.received,
        after.reverse_stream.isn == conn.reverse_stream.isn,
        after.reverse_stream.acked == conn.reverse_stream.acked,
        after.reverse_stream.window == conn.reverse_stream.window,
        after.reverse_stream.fin == conn.reverse_stream.fin,
        after.reverse_stream.had_reset == conn.reverse_stream.had_reset,
        after.reverse_stream.has_ended == conn.reverse_stream.has_ended,
        after.uuid == conn.uuid,
        after.observed_handshake == conn.observed_handshake,
        after.observed_close == conn.observed_close,
        after.event_handler == conn.event_handler,
{
}

/// A packet with RST and without SYN closes the connection, from whichever state:
/// the close is observed, and the stream in the packet's direction was reset. The
/// other stream, and everything else, stays; no handler hears of it.
pub proof fn law_rst_packet<H: ConnectionHandler>(
    conn: ConnectionView<H>,
    meta: TcpMeta,
    data: Seq<u8>,
    after: ConnectionView<H>,
    did_something: bool,
)
    requires
        along(conn.forward_flow, meta) || against(conn.forward_flow, meta),
        (meta.flags.rst && !meta.flags.syn && conn.handles(meta, data, after, did_something)) || (
        after == conn.after_rst(meta) && did_something),
    ensures
        did_something,
        after.conn_state == ConnectionState::Closed,
        after.observed_close,
        along(conn.forward_flow, meta) ==> {
            &&& after.forward_stream.had_reset
            &&& after.reverse_stream == conn.reverse_stream
        },
        !along(conn.forward_flow, meta) ==> {
            &&& after.reverse_stream.had_reset
            &&& after.forward_stream == conn.forward_stream
        },
        after.forward_stream.received == conn.forward_stream.received,
        after.forward_stream.isn == conn.forward_stream.isn,
        after.forward_stream.acked == conn.forward_stream.acked,
        after.forward_stream.window == conn.forward_stream.window,
        after.forward_stream.window_scale == conn.forward_stream.window_scale,
        after.forward_stream.fin == conn.forward_stream.fin,
        after.forward_stream.has_ended == conn.forward_stream.has_ended,
        after.reverse_stream.received == conn.reverse_stream.received,
        after.reverse_stream.isn == conn.reverse_stream.isn,
        after.reverse_stream.acked == conn.reverse_stream.acked,
        after.reverse_stream.window == conn.reverse_stream.window,
        after.reverse_stream.window_scale == conn.reverse_stream.window_scale,
        after.reverse_stream.fin == conn.reverse_stream.fin,
        after.reverse_stream.has_ended == conn.reverse_stream.has_ended,
        after.uuid == conn.uuid,
        after.forward_flow == conn.forward_flow,
        after.observed_handshake == conn.observed_handshake,
        after.event_handler == conn.event_handler,
{
}

/// A packet without SYN and RST that ends the handshake makes both streams start at
/// its own numbers, whatever the state was: the stream in its direction at its
/// sequence number, the opposite one at its acknowledgment number. These are the
/// numbers of the state, too. Both streams are then empty.
pub proof fn law_streams_start<H>(
    conn: ConnectionView<H>,
    meta: TcpMeta,
    forward_window: u16,
    reverse_window: u16,
    complete: bool,
    pos: int,
)
    requires
        along(conn.forward_flow, meta) || against(conn.forward_flow, meta),
    ensures
        ({
            let after = conn.established(meta, forward_window, reverse_window, complete);
            &&& after.conn_state == (ConnectionState::Established {
                forward_isn: after.forward_stream.isn,
                reverse_isn: after.reverse_stream.isn,
            })
            &&& along(conn.forward_flow, meta) ==> {
                &&& after.forward_stream.isn == meta.seq_number
                &&& after.reverse_stream.isn == meta.ack_number
            }
            &&& !along(conn.forward_flow, meta) ==> {
                &&& after.forward_stream.isn == meta.ack_number
                &&& after.reverse_stream.isn == meta.seq_number
            }
            &&& after.forward_stream.acked == after.forward_stream.isn
            &&& after.reverse_stream.acked == after.reverse_stream.isn
            &&& after.forward_stream.window == forward_window
            &&& after.reverse_stream.window == reverse_window
            &&& after.forward_stream.fin is None && after.reverse_stream.fin is None
            &&& !after.forward_stream.has_ended && !after.reverse_stream.has_ended
            &&& !after.forward_stream.received.contains_key(pos)
            &&& !after.reverse_stream.received.contains_key(pos)
            &&& after.forward_stream.window_scale == conn.forward_stream.window_scale
            &&& after.reverse_stream.window_scale == conn.reverse_stream.window_scale
            &&& after.forward_stream.had_reset == conn.forward_stream.had_reset
            &&& after.reverse_stream.had_reset == conn.reverse_stream.had_reset
            &&& after.observed_handshake == (conn.observed_handshake || complete)
            &&& after.uuid == conn.uuid
            &&& after.forward_flow == conn.forward_flow
            &&& after.observed_close == conn.observed_close
            &&& after.event_handler == conn.event_handler
        }),
{
}

/// After a SYN/ACK, the full handshake is observed if the SYN was seen and the packet
/// travels along with the flow, acknowledges, and has the numbers that the SYN/ACK
/// asks for: its acknowledgment number, and the one after its sequence number. Only
/// then is the packet's window known to be that of the reverse stream. Apart from
/// that the streams start as they do without a SYN/ACK.
pub proof fn law_packet_after_syn_ack<H>(
    conn: ConnectionView<H>,
    meta: TcpMeta,
    seq_no: u32,
    ack_no: u32,
    forward_window: u16,
    syn_seen: bool,
)
    ensures
        ({
            let after = conn.established_after_syn_ack(
                meta,
                seq_no,
                ack_no,
                forward_window,
                syn_seen,
            );
            let complete = {
                &&& syn_seen
                &&& along(conn.forward_flow, meta)
                &&& meta.flags.ack
                &&& meta.seq_number == ack_no
                &&& (meta.ack_number - seq_no - 1) % 0x1_0000_0000 == 0
            };
            &&& complete ==> after == conn.established(meta, forward_window, meta.window, true)
            &&& !complete ==> after == conn.established(meta, forward_window, 0, false)
        }),
{
}

/// The handshake is on until the connection is established or closed, and from a
/// SYN/ACK on its numbers count.
pub proof fn law_where_the_handshake_ends<H>(conn: ConnectionView<H>, meta: TcpMeta)
    ensures
        conn.in_handshake() <==> !(conn.conn_state is Established || conn.conn_state is Closed),
        conn.conn_state matches ConnectionState::SynReceived {
            seq_no,
            ack_no,
            window_size,
            syn_seen,
        } ==> conn.past_handshake(meta) == conn.established_after_syn_ack(
            meta,
            seq_no,
            ack_no,
            window_size,
            syn_seen,
        ),
        conn.conn_state is Uninitialized || conn.conn_state is SynSent ==> conn.past_handshake(meta)
            == conn.established(meta, 0, 0, false),
{
}

/// A handler that is told of an event is handed the connection without a handler and
/// is put back in charge of what it leaves; where there is none, and where there is
/// no event, nothing happens.
pub proof fn law_handler_is_told<H: ConnectionHandler>(
    conn: ConnectionView<H>,
    happened: bool,
    event: Event,
    after: ConnectionView<H>,
)
    requires
        conn.told_if(happened, event, after) || (happened && conn.told(event, after)),
    ensures
        !happened || conn.event_handler is None ==> after == conn,
        happened && conn.event_handler is Some ==> exists|
            handed: ConnectionView<H>,
            handler_after: H,
            left: ConnectionView<H>,
        |
            {
                &&& #[trigger] H::reacts(
                    event,
                    conn.event_handler->Some_0,
                    handed,
                    handler_after,
                    left,
                )
                &&& handed.event_handler is None
                &&& handed.uuid == conn.uuid
                &&& handed.forward_flow == conn.forward_flow
                &&& handed.conn_state == conn.conn_state
                &&& handed.observed_handshake == conn.observed_handshake
                &&& handed.observed_close == conn.observed_close
                &&& handed.forward_stream == conn.forward_stream
                &&& handed.reverse_stream == conn.reverse_stream
                &&& after.event_handler == Some(handler_after)
                &&& after.uuid == left.uuid
                &&& after.forward_flow == left.forward_flow
                &&& after.conn_state == left.conn_state
                &&& after.observed_handshake == left.observed_handshake
                &&& after.observed_close == left.observed_close
                &&& after.forward_stream == left.forward_stream
                &&& after.reverse_stream == left.reverse_stream
            },
{
    if happened && conn.event_handler is Some {
        let handler = conn.event_handler->Some_0;
        let (handler_after, left) = choose|handler_after: H, left: ConnectionView<H>|
            #[trigger] H::reacts(
                event,
                handler,
                conn.without_handler(),
                handler_after,
                left,
            ) && after == left.with_handler(handler_after);
        assert(H::reacts(event, handler, conn.without_handler(), handler_after, left));
    }
}

/// A packet without SYN and RST that comes before the connection is established ends
/// the handshake: the handler is told, and the data, if any, are handled after that.
pub proof fn law_handshake_end_is_told<H: ConnectionHandler>(
    conn: ConnectionView<H>,
    meta: TcpMeta,
    data: Seq<u8>,
    after: ConnectionView<H>,
    did_something: bool,
)
    requires
        !meta.flags.syn && !meta.flags.rst,
        !(conn.conn_state is Established || conn.conn_state is Closed),
        conn.handles(meta, data, after, did_something) || conn.handles_data(
            meta,
            data,
            after,
            did_something,
        ) || conn.past_handshake(meta).begins(meta, data, after, did_something),
    ensures
        exists|open: ConnectionView<H>|
            {
                &&& #[trigger] conn.past_handshake(meta).told(Event::HandshakeDone, open)
                &&& data.len() == 0 ==> after == open && did_something
                &&& data.len() > 0 ==> open.transfers(meta, data, after, did_something)
            },
{
    let start = conn.past_handshake(meta);
    assert(start.begins(meta, data, after, did_something));
    let open = choose|open: ConnectionView<H>|
        {
            &&& #[trigger] start.told(Event::HandshakeDone, open)
            &&& if data.len() > 0 {
                open.concerns(meta) && open.transfers(meta, data, after, did_something)
            } else {
                after == open && did_something
            }
        };
    assert(start.told(Event::HandshakeDone, open));
}

/// A connection whose handshake has just ended, whatever it was before, tells its
/// handler so; then the data of the packet, if any, are transferred, and if there are
/// none it is left at that.
pub proof fn law_beginning_is_told<H: ConnectionHandler>(
    start: ConnectionView<H>,
    meta: TcpMeta,
    data: Seq<u8>,
    after: ConnectionView<H>,
    did_something: bool,
)
    requires
        start.begins(meta, data, after, did_something),
    ensures
        data.len() == 0 ==> start.told(Event::HandshakeDone, after) && did_something,
        data.len() > 0 ==> exists|open: ConnectionView<H>|
            {
                &&& #[trigger] start.told(Event::HandshakeDone, open)
                &&& along(open.forward_flow, meta) || against(open.forward_flow, meta)
                &&& open.transfers(meta, data, after, did_something)
            },
{
    let open = choose|open: ConnectionView<H>|
        {
            &&& #[trigger] start.told(Event::HandshakeDone, open)
            &&& if data.len() > 0 {
                open.concerns(meta) && open.transfers(meta, data, after, did_something)
            } else {
                after == open && did_something
            }
        };
    assert(start.told(Event::HandshakeDone, open));
}

/// Once the connection is established or closed, every packet without SYN and RST is
/// a transfer.
pub proof fn law_established_connection_transfers<H: ConnectionHandler>(
    conn: ConnectionView<H>,
    meta: TcpMeta,
    data: Seq<u8>,
    after: ConnectionView<H>,
    did_something: bool,
)
    requires
        !meta.flags.syn && !meta.flags.rst,
        conn.conn_state is Established || conn.conn_state is Closed,
        conn.handles(meta, data, after, did_something) || conn.handles_data(
            meta,
            data,
            after,
            did_something,
        ),
    ensures
        conn.transfers(meta, data, after, did_something),
{
}

/// Whether `seen` is how the connection looks to the first handler that hears of a
/// transfer, or how a handler that only watches leaves it.
pub open spec fn may_be_seen<H: ConnectionHandler>(
    conn: ConnectionView<H>,
    meta: TcpMeta,
    data: Seq<u8>,
    seen: ConnectionView<H>,
    did_something: bool,
) -> bool {
    ||| seen == conn.moved(meta, data)
    ||| only_watches::<H>() && conn.transfers(meta, data, seen, did_something)
    ||| only_watches::<H>() && !meta.flags.syn && !meta.flags.rst && (conn.conn_state is Established
        || conn.conn_state is Closed) && conn.handles(meta, data, seen, did_something)
}

proof fn lemma_seen<H: ConnectionHandler>(
    conn: ConnectionView<H>,
    meta: TcpMeta,
    data: Seq<u8>,
    seen: ConnectionView<H>,
    did_something: bool,
)
    requires
        may_be_seen(conn, meta, data, seen, did_something),
    ensures
        seen.forward_stream == conn.moved(meta, data).forward_stream,
        seen.reverse_stream == conn.moved(meta, data).reverse_stream,
        seen.uuid == conn.uuid,
        seen.forward_flow == conn.forward_flow,
        seen.observed_handshake == conn.observed_handshake,
{
    if seen != conn.moved(meta, data) {
        lemma_watched_transfer(conn, meta, data, seen, did_something);
        let end = transferred(conn, meta, data);
        assert(seen.without_handler().forward_stream == end.without_handler().forward_stream);
        assert(seen.without_handler().reverse_stream == end.without_handler().reverse_stream);
        assert(seen.without_handler().uuid == end.without_handler().uuid);
        assert(seen.without_handler().forward_flow == end.without_handler().forward_flow);
        assert(seen.without_handler().observed_handshake
            == end.without_handler().observed_handshake);
    }
}

/// The payload of a packet goes to the stream in the packet's direction, in order or
/// not: each offset at or behind the start that it covers is received afterwards, and
/// no other becomes so; bytes received before stay. The offset is that of the packet's
/// sequence number from the start of the stream, taken nearest to the end of the
/// `readable` bytes. The packet brings data exactly if a byte of it was missing. The
/// bytes of the opposite direction stay.
pub proof fn law_payload_is_received<H: ConnectionHandler>(
    conn: ConnectionView<H>,
    meta: TcpMeta,
    direction: Direction,
    data: Seq<u8>,
    seen: ConnectionView<H>,
    did_something: bool,
    readable: nat,
    offset: int,
    pos: int,
)
    requires
        along(conn.forward_flow, meta) || against(conn.forward_flow, meta),
        direction == Direction::Forward <==> along(conn.forward_flow, meta),
        may_be_seen(conn, meta, data, seen, did_something),
        ({
            let stream = conn.stream(direction);
            &&& !stream.received.contains_key(readable as int)
            &&& forall|p: int| 0 <= p < readable ==> #[trigger] stream.received.contains_key(p)
            &&& (stream.isn + offset - meta.seq_number) % 0x1_0000_0000 == 0
            &&& -0x8000_0000 <= offset - readable < 0x8000_0000
        }),
    ensures
        ({
            let before = conn.stream(direction);
            let after = seen.stream(direction);
            let other_before = conn.stream(direction.opposite());
            let other_after = seen.stream(direction.opposite());
            let covered = 0 <= pos && offset <= pos < offset + data.len();
            &&& after.received.contains_key(pos) <==> before.received.contains_key(pos) || covered
            &&& before.received.contains_key(pos) ==> after.received[pos] == before.received[pos]
            &&& !before.received.contains_key(pos) && covered ==> after.received[pos] == data[pos
                - offset]
            &&& conn.brings_data(meta, data) <==> exists|i: int|
                0 <= i < data.len() && 0 <= offset + i && !#[trigger] before.received.contains_key(
                    offset + i,
                )
            &&& other_after.received == other_before.received
            // what the payload's stream knows besides its bytes and its FIN
            &&& after.isn == before.isn
            &&& after.acked == before.acked
            &&& after.window == before.window
            &&& after.window_scale == before.window_scale
            &&& after.had_reset == before.had_reset
            &&& after.has_ended == before.has_ended
        }),
        seen.uuid == conn.uuid,
        seen.forward_flow == conn.forward_flow,
        seen.observed_handshake == conn.observed_handshake,
{
    lemma_seen(conn, meta, data, seen, did_something);
    let stream = conn.stream(conn.direction(meta));
    law_stream_takes_data(stream, meta.seq_number, data, readable, offset, pos);
    law_stream_takes_fin(stream.with_data(meta.seq_number, data), meta.seq_number, data.len());
}

/// The FIN of a packet goes to the stream in the packet's direction, with the number
/// right behind the packet's data, also where it has none; only the first one counts,
/// and that is when a packet brings a FIN. Without the flag no FIN changes.
pub proof fn law_fin_is_received<H: ConnectionHandler>(
    conn: ConnectionView<H>,
    meta: TcpMeta,
    direction: Direction,
    data: Seq<u8>,
    seen: ConnectionView<H>,
    did_something: bool,
)
    requires
        along(conn.forward_flow, meta) || against(conn.forward_flow, meta),
        direction == Direction::Forward <==> along(conn.forward_flow, meta),
        may_be_seen(conn, meta, data, seen, did_something),
    ensures
        ({
            let before = conn.stream(direction);
            let after = seen.stream(direction);
            let other_before = conn.stream(direction.opposite());
            let other_after = seen.stream(direction.opposite());
            &&& meta.flags.fin && before.fin is None ==> after.fin == Some(
                ((meta.seq_number + data.len()) % 0x1_0000_0000) as u32,
            )
            &&& !meta.flags.fin || before.fin is Some ==> after.fin == before.fin
            &&& conn.brings_fin(meta) <==> meta.flags.fin && before.fin is None
            &&& other_after.fin == other_before.fin
        }),
{
    lemma_seen(conn, meta, data, seen, did_something);
}

/// The acknowledgment of a packet goes to the stream against the packet's direction:
/// one that lies ahead of those before takes their place, one that does not lie behind
/// them sets the window, and the stream ends once its FIN lies behind what is
/// acknowledged; that is when a packet brings its end. Without the flag nothing of
/// this changes.
pub proof fn law_acknowledgment_is_received<H: ConnectionHandler>(
    conn: ConnectionView<H>,
    meta: TcpMeta,
    direction: Direction,
    data: Seq<u8>,
    seen: ConnectionView<H>,
    did_something: bool,
    ahead: int,
    past: int,
)
    requires
        along(conn.forward_flow, meta) || against(conn.forward_flow, meta),
        direction == Direction::Forward <==> along(conn.forward_flow, meta),
        may_be_seen(conn, meta, data, seen, did_something),
        ({
            let stream = conn.stream(direction.opposite());
            let acked = if ahead > 0 {
                meta.ack_number
            } else {
                stream.acked
            };
            &&& leads(stream.acked as int, meta.ack_number as int, ahead)
            &&& stream.fin matches Some(fin) ==> leads(fin as int, acked as int, past)
        }),
    ensures
        ({
            let before = conn.stream(direction.opposite());
            let after = seen.stream(direction.opposite());
            &&& !meta.flags.ack ==> after == before && !conn.brings_ack(meta) && !conn.brings_end(
                meta,
            )
            &&& meta.flags.ack ==> {
                &&& ahead > 0 ==> after.acked == meta.ack_number
                &&& ahead <= 0 ==> after.acked == before.acked
                &&& ahead >= 0 ==> after.window == meta.window
                &&& ahead < 0 ==> after.window == before.window
                &&& after.has_ended <==> before.has_ended || (before.fin is Some && past > 0)
                &&& conn.brings_end(meta) <==> !before.has_ended && before.fin is Some && past > 0
                &&& conn.brings_ack(meta) <==> ahead > 0 || (ahead == 0 && meta.window
                    != before.window) || (!before.has_ended && before.fin is Some && past > 0)
            }
            &&& after.isn == before.isn
            &&& after.window_scale == before.window_scale
            &&& after.had_reset == before.had_reset
        }),
{
    lemma_seen(conn, meta, data, seen, did_something);
    let stream = conn.stream(conn.direction(meta).opposite());
    law_stream_takes_acknowledgment(stream, meta.ack_number, meta.window, ahead, past);
}

/// A transfer did something if it brought data, an acknowledgment or a FIN. The handler
/// is told of new data, of a first FIN and of the end of the opposite direction, in this
/// order, each with the connection as the one before left it. Only then, and only if
/// that end came and the packet's own direction had ended before, the connection is
/// closed and the close observed.
pub proof fn law_transfer_is_reported<H: ConnectionHandler>(
    conn: ConnectionView<H>,
    meta: TcpMeta,
    direction: Direction,
    data: Seq<u8>,
    after: ConnectionView<H>,
    did_something: bool,
)
    requires
        direction == Direction::Forward <==> along(conn.forward_flow, meta),
        conn.transfers(meta, data, after, did_something),
    ensures
        did_something <==> conn.brings_data(meta, data) || conn.brings_ack(meta)
            || conn.brings_fin(meta),
        ({
            let had_ended = conn.stream(direction).has_ended;
            exists|fed: ConnectionView<H>, finished: ConnectionView<H>, ended: ConnectionView<H>|
                {
                    &&& #[trigger] conn.moved(meta, data).told_if(
                        conn.brings_data(meta, data),
                        Event::DataReceived(direction),
                        fed,
                    )
                    &&& #[trigger] fed.told_if(
                        conn.brings_fin(meta),
                        Event::FinReceived(direction),
                        finished,
                    )
                    &&& #[trigger] finished.told_if(
                        conn.brings_end(meta),
                        Event::StreamEnd(direction.opposite()),
                        ended,
                    )
                    &&& after.uuid == ended.uuid
                    &&& after.forward_flow == ended.forward_flow
                    &&& after.observed_handshake == ended.observed_handshake
                    &&& after.forward_stream == ended.forward_stream
                    &&& after.reverse_stream == ended.reverse_stream
                    &&& after.event_handler == ended.event_handler
                    &&& conn.brings_end(meta) && had_ended ==> after.conn_state
                        == ConnectionState::Closed && after.observed_close
                    &&& !(conn.brings_end(meta) && had_ended) ==> after.conn_state
                        == ended.conn_state && after.observed_close == ended.observed_close
                }
        }),
        conn.moved(meta, data).conn_state == conn.conn_state,
        conn.moved(meta, data).observed_close == conn.observed_close,
        conn.moved(meta, data).event_handler == conn.event_handler,
{
    assert(conn.direction(meta) == direction);
    let moved = conn.moved(meta, data);
    let (fed, finished, ended) = choose|
        fed: ConnectionView<H>,
        finished: ConnectionView<H>,
        ended: ConnectionView<H>,
    |
        {
            &&& #[trigger] moved.told_if(
                conn.brings_data(meta, data),
                Event::DataReceived(direction),
                fed,
            )
            &&& #[trigger] fed.told_if(
                conn.brings_fin(meta),
                Event::FinReceived(direction),
                finished,
            )
            &&& #[trigger] finished.told_if(
                conn.brings_end(meta),
                Event::StreamEnd(direction.opposite()),
                ended,
            )
            &&& after == if conn.brings_end(meta) && conn.stream(direction).has_ended {
                ended.closed()
            } else {
                ended
            }
        };
    assert(moved.told_if(conn.brings_data(meta, data), Event::DataReceived(direction), fed));
    assert(fed.told_if(conn.brings_fin(meta), Event::FinReceived(direction), finished));
    assert(finished.told_if(
        conn.brings_end(meta),
        Event::StreamEnd(direction.opposite()),
        ended,
    ));
}

/// Under a handler that only watches, a transfer closes the connection exactly if it
/// brings the end of the opposite direction and the packet's own direction had ended
/// before: then the state is closed and the close observed, and else both stay.
pub proof fn law_transfer_closes<H: ConnectionHandler>(
    conn: ConnectionView<H>,
    meta: TcpMeta,
    direction: Direction,
    data: Seq<u8>,
    after: ConnectionView<H>,
    did_something: bool,
)
    requires
        only_watches::<H>(),
        direction == Direction::Forward <==> along(conn.forward_flow, meta),
        conn.transfers(meta, data, after, did_something) || (!meta.flags.syn && !meta.flags.rst && (
        conn.conn_state is Established || conn.conn_state is Closed) && conn.handles(
            meta,
            data,
            after,
            did_something,
        )),
    ensures
        ({
            let other_before = conn.stream(direction.opposite());
            let other_after = after.stream(direction.opposite());
            let closes = !other_before.has_ended && other_after.has_ended && conn.stream(
                direction,
            ).has_ended;
            &&& closes ==> after.conn_state == ConnectionState::Closed && after.observed_close
            &&& !closes ==> after.conn_state == conn.conn_state && after.observed_close
                == conn.observed_close
        }),
        after.uuid == conn.uuid,
        after.forward_flow == conn.forward_flow,
        after.observed_handshake == conn.observed_handshake,
        after.event_handler is Some == conn.event_handler is Some,
{
    lemma_watched_transfer(conn, meta, data, after, did_something);
    lemma_seen(conn, meta, data, after, did_something);
    let end = transferred(conn, meta, data).without_handler();
    assert(after.without_handler().conn_state == end.conn_state);
    assert(after.without_handler().observed_close == end.observed_close);
    assert(conn.direction(meta) == direction);
    assert(conn.moved(meta, data).stream(direction.opposite()) == conn.acknowledged(meta));
}

/// Under a handler that only watches, a FIN that closes a direction, and the
/// acknowledgment of the number after it from the other side, end that direction: the
/// FIN has the number right behind the `data` of its packet, also where there are none,
/// the handler hears of the end, and the connection is closed if the other direction
/// had ended by then. (What was acknowledged before must not lie half the circle of
/// sequence numbers ahead of the FIN, where ahead and behind cannot be told apart.)
pub proof fn law_acknowledged_fin_ends_direction<H: ConnectionHandler>(
    conn: ConnectionView<H>,
    fin: TcpMeta,
    direction: Direction,
    data: Seq<u8>,
    finished: ConnectionView<H>,
    fin_did: bool,
    ack: TcpMeta,
    other_data: Seq<u8>,
    after: ConnectionView<H>,
    ack_did: bool,
)
    requires
        only_watches::<H>(),
        conn.conn_state is Established || conn.conn_state is Closed,
        along(conn.forward_flow, fin) || against(conn.forward_flow, fin),
        direction == Direction::Forward <==> along(conn.forward_flow, fin),
        fin.flags.fin && !fin.flags.syn && !fin.flags.rst,
        conn.stream(direction).fin is None && !conn.stream(direction).has_ended,
        (conn.stream(direction).acked - fin.seq_number - data.len()) % 0x1_0000_0000
            != 0x8000_0000,
        (conn.stream(direction).acked - fin.seq_number - data.len()) % 0x1_0000_0000
            != 0x8000_0001,
        conn.handles(fin, data, finished, fin_did),
        along(conn.forward_flow, ack) || against(conn.forward_flow, ack),
        along(conn.forward_flow, ack) != along(conn.forward_flow, fin),
        ack.flags.ack && !ack.flags.syn && !ack.flags.rst,
        (fin.seq_number + data.len() + 1 - ack.ack_number) % 0x1_0000_0000 == 0,
        finished.handles(ack, other_data, after, ack_did),
    ensures
        fin_did && ack_did,
        finished.stream(direction).fin == Some(
            ((fin.seq_number + data.len()) % 0x1_0000_0000) as u32,
        ),
        !finished.stream(direction).has_ended,
        after.stream(direction).has_ended,
        finished.stream(direction.opposite()).has_ended ==> after.conn_state
            == ConnectionState::Closed && after.observed_close,
        finished.event_handler is Some ==> after.event_handler is Some && exists|
            heard: Seq<Event>,
        |
            #[trigger] hears(
                finished.event_handler->Some_0,
                heard,
                after.event_handler->Some_0,
            ) && heard.contains(Event::StreamEnd(direction)),
{
    law_fin_is_received(conn, fin, direction, data, finished, fin_did);
    lemma_fin_step(conn, fin, direction, data, finished, fin_did);
    lemma_ack_covers_fin(
        conn.stream(direction).acked as int,
        fin.seq_number + data.len(),
        finished.stream(direction).fin->Some_0 as int,
        ack.ack_number as int,
    );
    lemma_ack_step(finished, ack, direction, other_data, after, ack_did);
}

/// A packet with FIN leaves an established connection past its handshake, on the same
/// flow, with nothing new acknowledged in its own direction.
proof fn lemma_fin_step<H: ConnectionHandler>(
    conn: ConnectionView<H>,
    fin: TcpMeta,
    direction: Direction,
    data: Seq<u8>,
    finished: ConnectionView<H>,
    fin_did: bool,
)
    requires
        only_watches::<H>(),
        conn.conn_state is Established || conn.conn_state is Closed,
        along(conn.forward_flow, fin) || against(conn.forward_flow, fin),
        direction == Direction::Forward <==> along(conn.forward_flow, fin),
        fin.flags.fin && !fin.flags.syn && !fin.flags.rst,
        conn.stream(direction).fin is None,
        conn.handles(fin, data, finished, fin_did),
    ensures
        fin_did,
        finished.conn_state is Established || finished.conn_state is Closed,
        finished.forward_flow == conn.forward_flow,
        finished.stream(direction).acked == conn.stream(direction).acked,
        finished.stream(direction).has_ended == conn.stream(direction).has_ended,
{
    lemma_seen(conn, fin, data, finished, fin_did);
    law_transfer_closes(conn, fin, direction, data, finished, fin_did);
    assert(conn.direction(fin) == direction);
    assert(conn.moved(fin, data).stream(direction) == conn.extended(fin, data));
}

/// A packet against a direction that acknowledges its FIN ends it.
proof fn lemma_ack_step<H: ConnectionHandler>(
    conn: ConnectionView<H>,
    ack: TcpMeta,
    direction: Direction,
    data: Seq<u8>,
    after: ConnectionView<H>,
    did_something: bool,
)
    requires
        only_watches::<H>(),
        conn.conn_state is Established || conn.conn_state is Closed,
        along(conn.forward_flow, ack) || against(conn.forward_flow, ack),
        direction == Direction::Reverse <==> along(conn.forward_flow, ack),
        ack.flags.ack && !ack.flags.syn && !ack.flags.rst,
        !conn.stream(direction).has_ended,
        conn.stream(direction).fin is Some,
        ({
            let stream = conn.stream(direction);
            seq_distance(
                stream.fin->Some_0 as int,
                if seq_distance(stream.acked as int, ack.ack_number as int) > 0 {
                    ack.ack_number as int
                } else {
                    stream.acked as int
                },
            ) > 0
        }),
        conn.handles(ack, data, after, did_something),
    ensures
        did_something,
        after.stream(direction).has_ended,
        conn.stream(direction.opposite()).has_ended ==> after.conn_state == ConnectionState::Closed
            && after.observed_close,
        conn.event_handler is Some ==> after.event_handler is Some && exists|heard: Seq<Event>|
            #[trigger] hears(
                conn.event_handler->Some_0,
                heard,
                after.event_handler->Some_0,
            ) && heard.contains(Event::StreamEnd(direction)),
{
    let other = direction.opposite();
    let stream = conn.stream(direction);
    assert(conn.direction(ack) == other);
    assert(other.opposite() == direction);
    assert(conn.acknowledged(ack) == stream.with_ack(ack.ack_number, ack.window));
    assert(conn.brings_end(ack));
    lemma_seen(conn, ack, data, after, did_something);
    assert(conn.moved(ack, data).stream(direction) == conn.acknowledged(ack));
    assert(after.stream(direction) == conn.moved(ack, data).stream(direction));
    law_transfer_closes(conn, ack, other, data, after, did_something);
    if conn.event_handler is Some {
        law_handler_hears_events(conn, ack, data, after, did_something);
        let heard = events(conn, ack, data);
        assert(heard[heard.len() - 1] == Event::StreamEnd(direction));
        assert(hears(conn.event_handler->Some_0, heard, after.event_handler->Some_0));
    }
}

/// Whatever was acknowledged before, the number after a FIN covers it.
proof fn lemma_ack_covers_fin(acked: int, end: int, fin: int, ack: int)
    requires
        fin == end % 0x1_0000_0000,
        (end + 1 - ack) % 0x1_0000_0000 == 0,
        (acked - end) % 0x1_0000_0000 != 0x8000_0000,
        (acked - end) % 0x1_0000_0000 != 0x8000_0001,
    ensures
        seq_distance(
            fin,
            if seq_distance(acked, ack) > 0 {
                ack
            } else {
                acked
            },
        ) > 0,
{
}

/// Under a handler that only watches, two segments of one direction are both received,
/// in whichever order they come: every offset at or behind the start that one of them
/// covers is then among the bytes of their stream. (`readable` and `later` are how far
/// the stream could be read before each.)
pub proof fn law_segments_come_in_any_order<H: ConnectionHandler>(
    conn: ConnectionView<H>,
    direction: Direction,
    first: TcpMeta,
    data: Seq<u8>,
    between: ConnectionView<H>,
    first_did: bool,
    readable: nat,
    offset: int,
    second: TcpMeta,
    more: Seq<u8>,
    after: ConnectionView<H>,
    second_did: bool,
    later: nat,
    second_offset: int,
    pos: int,
)
    requires
        only_watches::<H>(),
        conn.conn_state is Established || conn.conn_state is Closed,
        along(conn.forward_flow, first) || against(conn.forward_flow, first),
        along(conn.forward_flow, second) || against(conn.forward_flow, second),
        direction == Direction::Forward <==> along(conn.forward_flow, first),
        direction == Direction::Forward <==> along(conn.forward_flow, second),
        !first.flags.syn && !first.flags.rst && !second.flags.syn && !second.flags.rst,
        conn.handles(first, data, between, first_did),
        between.handles(second, more, after, second_did),
        !conn.stream(direction).received.contains_key(readable as int),
        forall|p: int|
            0 <= p < readable ==> #[trigger] conn.stream(direction).received.contains_key(p),
        (conn.stream(direction).isn + offset - first.seq_number) % 0x1_0000_0000 == 0,
        -0x8000_0000 <= offset - readable < 0x8000_0000,
        !between.stream(direction).received.contains_key(later as int),
        forall|p: int|
            0 <= p < later ==> #[trigger] between.stream(direction).received.contains_key(p),
        (conn.stream(direction).isn + second_offset - second.seq_number) % 0x1_0000_0000 == 0,
        -0x8000_0000 <= second_offset - later < 0x8000_0000,
    ensures
        after.stream(direction).received.contains_key(pos) <==> {
            ||| conn.stream(direction).received.contains_key(pos)
            ||| 0 <= pos && offset <= pos < offset + data.len()
            ||| 0 <= pos && second_offset <= pos < second_offset + more.len()
        },
{
    law_payload_is_received(conn, first, direction, data, between, first_did, readable, offset, pos);
    law_transfer_closes(conn, first, direction, data, between, first_did);
    law_payload_is_received(
        between,
        second,
        direction,
        more,
        after,
        second_did,
        later,
        second_offset,
        pos,
    );
}

/// Under a handler that only watches, a packet without SYN and RST that ends the
/// handshake leaves the connection established at its own numbers, from whichever
/// state. The stream in its direction holds its data and, if it has data, its FIN; the
/// opposite stream holds nothing. The windows are those that the SYN/ACK and the packet
/// announced, where they were seen.
pub proof fn law_handshake_end<H: ConnectionHandler>(
    conn: ConnectionView<H>,
    meta: TcpMeta,
    direction: Direction,
    data: Seq<u8>,
    after: ConnectionView<H>,
    did_something: bool,
    pos: int,
)
    requires
        only_watches::<H>(),
        !meta.flags.syn && !meta.flags.rst,
        !(conn.conn_state is Established || conn.conn_state is Closed),
        along(conn.forward_flow, meta) || against(conn.forward_flow, meta),
        direction == Direction::Forward <==> along(conn.forward_flow, meta),
        conn.handles(meta, data, after, did_something),
    ensures
        did_something,
        after.conn_state == (ConnectionState::Established {
            forward_isn: after.forward_stream.isn,
            reverse_isn: after.reverse_stream.isn,
        }),
        ({
            let stream = after.stream(direction);
            let other = after.stream(direction.opposite());
            &&& stream.isn == meta.seq_number && stream.acked == meta.seq_number
            &&& other.isn == meta.ack_number && other.acked == meta.ack_number
            &&& stream.received.contains_key(pos) <==> 0 <= pos < data.len()
            &&& 0 <= pos < data.len() ==> stream.received[pos] == data[pos]
            &&& !other.received.contains_key(pos)
            &&& data.len() > 0 && meta.flags.fin ==> stream.fin == Some(
                ((meta.seq_number + data.len()) % 0x1_0000_0000) as u32,
            )
            &&& data.len() == 0 || !meta.flags.fin ==> stream.fin is None
            &&& other.fin is None
            &&& !stream.has_ended && !other.has_ended
            &&& data.len() > 0 && meta.flags.ack ==> other.window == meta.window
        }),
        ({
            let complete = conn.conn_state matches ConnectionState::SynReceived {
                seq_no,
                ack_no,
                window_size,
                syn_seen,
            } && syn_seen && direction == Direction::Forward && meta.flags.ack && meta.seq_number
                == ack_no && (meta.ack_number - seq_no - 1) % 0x1_0000_0000 == 0;
            let acknowledges = data.len() > 0 && meta.flags.ack;
            &&& after.observed_handshake == (conn.observed_handshake || complete)
            &&& direction == Direction::Forward || !acknowledges ==> {
                &&& conn.conn_state matches ConnectionState::SynReceived { window_size, .. }
                    ==> after.forward_stream.window == window_size
                &&& !(conn.conn_state is SynReceived) ==> after.forward_stream.window == 0
            }
            &&& direction == Direction::Reverse || !acknowledges ==> after.reverse_stream.window
                == if complete {
                meta.window
            } else {
                0
            }
        }),
        after.forward_stream.window_scale == conn.forward_stream.window_scale,
        after.reverse_stream.window_scale == conn.reverse_stream.window_scale,
        after.forward_stream.had_reset == conn.forward_stream.had_reset,
        after.reverse_stream.had_reset == conn.reverse_stream.had_reset,
        after.uuid == conn.uuid,
        after.forward_flow == conn.forward_flow,
        after.observed_close == conn.observed_close,
        after.event_handler is Some == conn.event_handler is Some,
{
    law_watched_connection_has_one_outcome(conn, meta, data, after, did_something);
    law_first_data_are_readable(conn, meta, data, after, did_something);
    let start = conn.past_handshake(meta);
    let end = outcome(conn, meta, data).without_handler();
    let left = after.without_handler();
    assert(left.forward_stream == end.forward_stream);
    assert(left.reverse_stream == end.reverse_stream);
    assert(left.conn_state == end.conn_state && left.uuid == end.uuid);
    assert(left.forward_flow == end.forward_flow);
    assert(left.observed_handshake == end.observed_handshake);
    assert(left.observed_close == end.observed_close);
    let stream = start.stream(direction);
    assert(start.direction(meta) == direction);
    assert(stream.isn == meta.seq_number);
    assert(seq_distance(meta.ack_number as int, meta.ack_number as int) == 0);
    law_stream_takes_data(stream, meta.seq_number, data, 0, 0, pos);
}

/// Data are kept where there are none to keep, where there is no handler, and where the
/// handler only watches; in general exactly where no reaction of the handler to the end
/// of the handshake leaves a flow with other endpoints than the packet's. A connection
/// past its handshake always keeps them.
pub proof fn law_data_are_kept<H: ConnectionHandler>(
    conn: ConnectionView<H>,
    meta: TcpMeta,
    data: Seq<u8>,
)
    requires
        along(conn.forward_flow, meta) || against(conn.forward_flow, meta),
    ensures
        conn.conn_state is Established || conn.conn_state is Closed ==> conn.keeps_data(meta, data),
        data.len() == 0 || conn.event_handler is None || only_watches::<H>() ==> {
            &&& conn.keeps_data(meta, data)
            &&& conn.holds_on(meta, data)
        },
        conn.holds_on(meta, data) <==> data.len() == 0 || (forall|open: ConnectionView<H>|
            #[trigger] conn.told(Event::HandshakeDone, open) ==> along(open.forward_flow, meta)
                || against(open.forward_flow, meta)),
        conn.in_handshake() ==> conn.keeps_data(meta, data) == conn.past_handshake(meta).holds_on(
            meta,
            data,
        ),
{
}

/// A connection strays from a packet with data only where its handler, told of the end
/// of the handshake, left a flow with other endpoints than the packet's.
pub proof fn law_straying<H: ConnectionHandler>(
    conn: ConnectionView<H>,
    meta: TcpMeta,
    data: Seq<u8>,
    after: ConnectionView<H>,
)
    requires
        conn.strays(meta, data, after),
    ensures
        data.len() > 0,
        conn.told(Event::HandshakeDone, after),
        !along(after.forward_flow, meta) && !against(after.forward_flow, meta),
{
}

} // verus!
