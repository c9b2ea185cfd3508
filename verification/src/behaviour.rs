//! What packets do to streams and connections, field by field.

use vstd::prelude::*;

use crate::connection::{Connection, ConnectionState};
use crate::direction::Direction;
use crate::flow_table::{flow_of, Flow, FlowCompare};
use crate::meta::{big_endian, TcpMeta};
use crate::model::{is_random_uuid, next_seq, ConnectionView};
use crate::reassembly::{
    fills_a_gap, filled, is_prefix_length, lemma_prefix_length, prefix_length,
};
use crate::stream::{seq_distance, Stream, StreamView};

verus! {

/// Whether a packet has the source and the destination of a flow.
pub open spec fn along(flow: Flow, meta: TcpMeta) -> bool {
    &&& meta.src_addr == flow.src_addr
    &&& meta.src_port == flow.src_port
    &&& meta.dst_addr == flow.dst_addr
    &&& meta.dst_port == flow.dst_port
}

/// Whether a packet has the destination of a flow for its source, and its source
/// for its destination.
pub open spec fn against(flow: Flow, meta: TcpMeta) -> bool {
    &&& meta.src_addr == flow.dst_addr
    &&& meta.src_port == flow.dst_port
    &&& meta.dst_addr == flow.src_addr
    &&& meta.dst_port == flow.src_port
}

/// Whether one comes from the sequence number `from` to `to` by `ahead` steps, and
/// by no fewer (backwards, if negative).
pub open spec fn leads(from: int, to: int, ahead: int) -> bool {
    &&& -0x8000_0000 <= ahead < 0x8000_0000
    &&& (from + ahead - to) % 0x1_0000_0000 == 0
}

/// Steps on the circle of sequence numbers are what their name says.
pub proof fn law_distance_leads(from: int, to: int, ahead: int)
    ensures
        leads(from, to, seq_distance(from, to)),
        leads(from, to, ahead) ==> seq_distance(from, to) == ahead,
{
}

/// The number after a sequence number is the next one, and zero after the largest.
pub proof fn law_next_sequence_number(seq: u32)
    ensures
        seq < u32::MAX ==> next_seq(seq) == seq + 1,
        seq == u32::MAX ==> next_seq(seq) == 0,
{
}

/// A number spelled in octets gives each of them back.
pub proof fn law_octets_of_address(octets: Seq<u8>)
    requires
        octets.len() == 4,
    ensures
        big_endian(octets) / 0x100_0000 == octets[0],
        big_endian(octets) / 0x1_0000 % 0x100 == octets[1],
        big_endian(octets) / 0x100 % 0x100 == octets[2],
        big_endian(octets) % 0x100 == octets[3],
        0 <= big_endian(octets) <= u32::MAX,
{
}

/// A packet travels along with a flow if its endpoints are those of the flow,
/// against it if they are the same exchanged, and else is unrelated. Reversing a
/// flow exchanges its endpoints, and a packet travels along with its own flow.
pub proof fn law_endpoints(flow: Flow, meta: TcpMeta)
    ensures
        flow.relation(meta) == FlowCompare::Forward <==> along(flow, meta),
        flow.relation(meta) == FlowCompare::Reverse <==> against(flow, meta) && !along(flow, meta),
        flow.relation(meta) == FlowCompare::Unrelated <==> !along(flow, meta) && !against(
            flow,
            meta,
        ),
        flow.reversed().src_addr == flow.dst_addr,
        flow.reversed().src_port == flow.dst_port,
        flow.reversed().dst_addr == flow.src_addr,
        flow.reversed().dst_port == flow.src_port,
        along(flow_of(meta), meta),
{
}

/// What a connection says of a packet's direction, and of its streams in one, goes
/// by the endpoints.
pub proof fn law_direction_of_packet<H>(conn: ConnectionView<H>, meta: TcpMeta)
    ensures
        conn.concerns(meta) == (along(conn.forward_flow, meta) || against(
            conn.forward_flow,
            meta,
        )),
        conn.direction(meta) == Direction::Forward <==> along(conn.forward_flow, meta),
        conn.stream(Direction::Forward) == conn.forward_stream,
        conn.stream(Direction::Reverse) == conn.reverse_stream,
{
}

/// The identifier has the digit 4 in the thirteenth place of its hexadecimal
/// digits, and one of 8, 9, a and b in the seventeenth.
pub proof fn law_random_uuid_digits(bits: u128)
    requires
        is_random_uuid(bits),
    ensures
        (bits >> 76) & 0xf == 4,
        8 <= (bits >> 60) & 0xf <= 11,
{
    assert(bits / 0x1000_0000_0000_0000_0000 % 16 == 4 ==> (bits >> 76) & 0xf == 4)
        by (bit_vector);
    assert(bits / 0x4000_0000_0000_0000 % 4 == 2 ==> 8 <= (bits >> 60) & 0xf <= 11)
        by (bit_vector);
}

/// The readable bytes are those before the first offset that was not received.
pub proof fn law_readable_bytes(received: Map<int, u8>, len: nat)
    ensures
        is_prefix_length(received, len) <==> !received.contains_key(len as int) && (forall|
            pos: int,
        |
            0 <= pos < len ==> #[trigger] received.contains_key(pos)),
        is_prefix_length(received, len) ==> prefix_length(received) == len,
{
    if is_prefix_length(received, len) {
        lemma_prefix_length(received, len);
    }
}

/// Bytes that come in at an offset are received there as far as they lie at or
/// behind offset zero; nothing else is received, and what was received before
/// stays. They fill a gap exactly if one of them was missing.
pub proof fn law_bytes_fill_gaps(received: Map<int, u8>, start: int, data: Seq<u8>, pos: int)
    ensures
        filled(received, start, data).contains_key(pos) <==> received.contains_key(pos) || (0
            <= pos && start <= pos < start + data.len()),
        received.contains_key(pos) ==> filled(received, start, data)[pos] == received[pos],
        !received.contains_key(pos) && 0 <= pos && start <= pos < start + data.len() ==> filled(
            received,
            start,
            data,
        )[pos] == data[pos - start],
        fills_a_gap(received, start, data) <==> exists|i: int|
            0 <= i < data.len() && 0 <= start + i && !#[trigger] received.contains_key(start + i),
{
    if fills_a_gap(received, start, data) {
        let missing = choose|missing: int|
            0 <= missing && start <= missing < start + data.len()
                && !#[trigger] received.contains_key(missing);
        assert(!received.contains_key(start + (missing - start)));
    }
}

/// Runs of bytes that do not overlap can come in either order.
pub proof fn law_order_of_bytes_is_irrelevant(
    received: Map<int, u8>,
    start: int,
    data: Seq<u8>,
    other_start: int,
    other: Seq<u8>,
)
    requires
        start + data.len() <= other_start || other_start + other.len() <= start,
    ensures
        filled(filled(received, start, data), other_start, other) == filled(
            filled(received, other_start, other),
            start,
            data,
        ),
{
    assert(filled(filled(received, start, data), other_start, other) =~= filled(
        filled(received, other_start, other),
        start,
        data,
    ));
}

/// Nothing is known of an unseen stream.
pub proof fn law_unseen_stream(pos: int)
    ensures
        ({
            let stream = StreamView::unseen();
            &&& stream.window_scale == 0 && stream.window == 0
            &&& stream.isn == 0 && stream.acked == 0
            &&& stream.fin is None
            &&& !stream.had_reset && !stream.has_ended
            &&& !stream.received.contains_key(pos)
        }),
{
}

/// A stream starts at the number that it is given: nothing is received, nothing
/// behind it acknowledged, no FIN seen. Window scale and reset stay.
pub proof fn law_stream_starts(stream: StreamView, isn: u32, window: u16, pos: int)
    ensures
        ({
            let after = stream.started(isn, window);
            &&& after.isn == isn
            &&& after.acked == isn
            &&& after.window == window
            &&& after.fin is None
            &&& !after.has_ended
            &&& !after.received.contains_key(pos)
            &&& after.window_scale == stream.window_scale
            &&& after.had_reset == stream.had_reset
        }),
{
}

/// Data go where their sequence number says, counted from the start of the stream
/// and taken nearest to the end of the `readable` bytes: in order or not. They
/// count as lacking exactly if a byte of them was missing, and change nothing but
/// the bytes received.
pub proof fn law_stream_takes_data(
    stream: StreamView,
    seq: u32,
    data: Seq<u8>,
    readable: nat,
    offset: int,
    pos: int,
)
    requires
        !stream.received.contains_key(readable as int),
        forall|p: int| 0 <= p < readable ==> #[trigger] stream.received.contains_key(p),
        (stream.isn + offset - seq) % 0x1_0000_0000 == 0,
        -0x8000_0000 <= offset - readable < 0x8000_0000,
    ensures
        ({
            let after = stream.with_data(seq, data);
            let covered = 0 <= pos && offset <= pos < offset + data.len();
            &&& after.received.contains_key(pos) <==> stream.received.contains_key(pos) || covered
            &&& stream.received.contains_key(pos) ==> after.received[pos] == stream.received[pos]
            &&& !stream.received.contains_key(pos) && covered ==> after.received[pos] == data[pos
                - offset]
            &&& after.window_scale == stream.window_scale
            &&& after.had_reset == stream.had_reset
            &&& after.has_ended == stream.has_ended
            &&& after.isn == stream.isn
            &&& after.window == stream.window
            &&& after.acked == stream.acked
            &&& after.fin == stream.fin
        }),
        stream.lacks(seq, data) <==> exists|i: int|
            0 <= i < data.len() && 0 <= offset + i && !#[trigger] stream.received.contains_key(
                offset + i,
            ),
{
    lemma_prefix_length(stream.received, readable);
    law_distance_leads(stream.isn + readable, seq as int, offset - readable);
    assert(stream.offset_of(seq) == offset);
    law_bytes_fill_gaps(stream.received, offset, data, pos);
}

/// An acknowledgment that lies ahead of those before takes their place, one that
/// does not lie behind them sets the window, and the stream ends once its FIN lies
/// behind what is acknowledged. Nothing else changes.
pub proof fn law_stream_takes_acknowledgment(
    stream: StreamView,
    ack: u32,
    window: u16,
    ahead: int,
    past: int,
)
    requires
        leads(stream.acked as int, ack as int, ahead),
        stream.fin matches Some(fin) ==> leads(
            fin as int,
            if ahead > 0 {
                ack as int
            } else {
                stream.acked as int
            },
            past,
        ),
    ensures
        ({
            let after = stream.with_ack(ack, window);
            &&& ahead > 0 ==> after.acked == ack
            &&& ahead <= 0 ==> after.acked == stream.acked
            &&& ahead >= 0 ==> after.window == window
            &&& ahead < 0 ==> after.window == stream.window
            &&& after.has_ended <==> stream.has_ended || (stream.fin is Some && past > 0)
            &&& after.window_scale == stream.window_scale
            &&& after.had_reset == stream.had_reset
            &&& after.isn == stream.isn
            &&& after.fin == stream.fin
            &&& after.received == stream.received
        }),
{
    law_distance_leads(stream.acked as int, ack as int, ahead);
    if let Some(fin) = stream.fin {
        law_distance_leads(
            fin as int,
            if ahead > 0 {
                ack as int
            } else {
                stream.acked as int
            },
            past,
        );
    }
}

/// The first FIN has the number right behind the data of its packet, also where
/// there are none; later ones change nothing. Nothing else changes at all.
pub proof fn law_stream_takes_fin(stream: StreamView, seq: u32, len: nat)
    ensures
        ({
            let after = stream.with_fin(seq, len);
            &&& stream.fin is Some ==> after == stream
            &&& stream.fin is None ==> after.fin is Some && (seq + len - after.fin->Some_0)
                % 0x1_0000_0000 == 0
            &&& after.window_scale == stream.window_scale
            &&& after.had_reset == stream.had_reset
            &&& after.has_ended == stream.has_ended
            &&& after.isn == stream.isn
            &&& after.window == stream.window
            &&& after.acked == stream.acked
            &&& after.received == stream.received
        }),
{
}

/// Nothing is known of an unseen connection but its identifier and its flow, and a
/// handler is all that changes when one is put in charge or taken away.
pub proof fn law_unseen_connection<H>(
    uuid: u128,
    flow: Flow,
    conn: ConnectionView<H>,
    handler: H,
)
    ensures
        ({
            let unseen = ConnectionView::<H>::unseen(uuid, flow);
            &&& unseen.uuid == uuid
            &&& unseen.forward_flow == flow
            &&& unseen.conn_state == ConnectionState::Uninitialized
            &&& !unseen.observed_handshake && !unseen.observed_close
            &&& unseen.forward_stream == StreamView::unseen()
            &&& unseen.reverse_stream == StreamView::unseen()
            &&& unseen.event_handler is None
        }),
        conn.with_handler(handler).event_handler == Some(handler),
        conn.with_handler(handler).uuid == conn.uuid,
        conn.with_handler(handler).forward_flow == conn.forward_flow,
        conn.with_handler(handler).conn_state == conn.conn_state,
        conn.with_handler(handler).observed_handshake == conn.observed_handshake,
        conn.with_handler(handler).observed_close == conn.observed_close,
        conn.with_handler(handler).forward_stream == conn.forward_stream,
        conn.with_handler(handler).reverse_stream == conn.reverse_stream,
        conn.without_handler().event_handler is None,
        conn.without_handler().uuid == conn.uuid,
        conn.without_handler().forward_flow == conn.forward_flow,
        conn.without_handler().conn_state == conn.conn_state,
        conn.without_handler().observed_handshake == conn.observed_handshake,
        conn.without_handler().observed_close == conn.observed_close,
        conn.without_handler().forward_stream == conn.forward_stream,
        conn.without_handler().reverse_stream == conn.reverse_stream,
{
}

/// What is said of a stream is said of its fields.
pub proof fn law_stream_is_its_fields(stream: Stream)
    ensures
        stream@.window_scale == stream.window_scale,
        stream@.had_reset == stream.had_reset,
        stream@.has_ended == stream.has_ended,
        stream@.isn == stream.isn,
        stream@.window == stream.window,
        stream@.acked == stream.acked,
        stream@.fin == stream.fin,
        stream@.received == stream.buffer@,
{
}

/// What is said of a connection is said of its fields, and a handler is all that
/// changes when one is lent out or put back.
pub proof fn law_connection_is_its_fields<H>(conn: Connection<H>, handler: H)
    ensures
        conn@.uuid == conn.uuid,
        conn@.forward_flow == conn.forward_flow,
        conn@.conn_state == conn.conn_state,
        conn@.observed_handshake == conn.observed_handshake,
        conn@.observed_close == conn.observed_close,
        conn@.forward_stream == conn.forward_stream@,
        conn@.reverse_stream == conn.reverse_stream@,
        conn@.event_handler == conn.event_handler,
        conn.without_handler().event_handler is None,
        conn.with_handler(handler).event_handler == Some(handler),
        conn.without_handler().uuid == conn.uuid,
        conn.without_handler().forward_flow == conn.forward_flow,
        conn.without_handler().conn_state == conn.conn_state,
        conn.without_handler().observed_handshake == conn.observed_handshake,
        conn.without_handler().observed_close == conn.observed_close,
        conn.without_handler().forward_stream == conn.forward_stream,
        conn.without_handler().reverse_stream == conn.reverse_stream,
        conn.with_handler(handler).uuid == conn.uuid,
        conn.with_handler(handler).forward_flow == conn.forward_flow,
        conn.with_handler(handler).conn_state == conn.conn_state,
        conn.with_handler(handler).observed_handshake == conn.observed_handshake,
        conn.with_handler(handler).observed_close == conn.observed_close,
        conn.with_handler(handler).forward_stream == conn.forward_stream,
        conn.with_handler(handler).reverse_stream == conn.reverse_stream,
{
}

/// The names of the directions.
pub proof fn law_direction_names()
    ensures
        Direction::Forward.name() == seq!['f', 'o', 'r', 'w', 'a', 'r', 'd'],
        Direction::Reverse.name() == seq!['r', 'e', 'v', 'e', 'r', 's', 'e'],
{
    reveal_strlit("forward");
    reveal_strlit("reverse");
    assert(Direction::Forward.name() =~= seq!['f', 'o', 'r', 'w', 'a', 'r', 'd']);
    assert(Direction::Reverse.name() =~= seq!['r', 'e', 'v', 'e', 'r', 's', 'e']);
}

} // verus!
