//! What holds of a connection over all the packets that it handles.

use vstd::prelude::*;

use crate::handler::{ConnectionHandler, Event};
use crate::laws::{
    coherent, law_connection_never_goes_back, law_connection_stays_coherent,
    law_watched_connection_has_one_outcome, only_watches, outcome, progress,
};
use crate::meta::TcpMeta;
use crate::model::ConnectionView;

verus! {

/// One event, or none.
pub open spec fn event_if(happened: bool, event: Event) -> Seq<Event> {
    if happened {
        seq![event]
    } else {
        seq![]
    }
}

/// The events that a packet raises on an established connection, in order.
pub open spec fn transfer_events<H>(
    conn: ConnectionView<H>,
    meta: TcpMeta,
    data: Seq<u8>,
) -> Seq<Event> {
    let direction = conn.direction(meta);
    event_if(conn.brings_data(meta, data), Event::DataReceived(direction)) + event_if(
        conn.brings_fin(meta),
        Event::FinReceived(direction),
    ) + event_if(conn.brings_end(meta), Event::StreamEnd(direction.opposite()))
}

/// The events that a packet raises on a connection whose handler only watches, in
/// order.
pub open spec fn events<H>(conn: ConnectionView<H>, meta: TcpMeta, data: Seq<u8>) -> Seq<Event> {
    if meta.flags.syn || meta.flags.rst {
        seq![]
    } else if !conn.in_handshake() {
        transfer_events(conn, meta, data)
    } else if data.len() > 0 {
        seq![Event::HandshakeDone] + transfer_events(conn.past_handshake(meta), meta, data)
    } else {
        seq![Event::HandshakeDone]
    }
}

/// Whether `handler` can turn into `handler_after` by hearing of `heard`, in order,
/// from connections that it leaves alone.
pub open spec fn hears<H: ConnectionHandler>(
    handler: H,
    heard: Seq<Event>,
    handler_after: H,
) -> bool
    decreases heard.len(),
{
    if heard.len() == 0 {
        handler_after == handler
    } else {
        exists|before: H, conn: ConnectionView<H>|
            hears(handler, heard.drop_last(), before) && #[trigger] H::reacts(
                heard.last(),
                before,
                conn,
                handler_after,
                conn,
            )
    }
}

/// One more event.
proof fn lemma_hears_one_more<H: ConnectionHandler>(
    handler: H,
    heard: Seq<Event>,
    conn: ConnectionView<H>,
    happened: bool,
    event: Event,
    after: ConnectionView<H>,
)
    requires
        only_watches::<H>(),
        conn.event_handler matches Some(before) && hears(handler, heard, before),
        conn.told_if(happened, event, after),
    ensures
        after.event_handler matches Some(handler_after) && hears(
            handler,
            heard + event_if(happened, event),
            handler_after,
        ),
        after.without_handler() == conn.without_handler(),
{
    let all = heard + event_if(happened, event);
    if happened {
        let before = conn.event_handler->Some_0;
        let (handler_after, conn_after) = choose|handler_after: H, conn_after: ConnectionView<H>|
            #[trigger] H::reacts(
                event,
                before,
                conn.without_handler(),
                handler_after,
                conn_after,
            ) && after == conn_after.with_handler(handler_after);
        assert(all.drop_last() =~= heard);
        assert(all.last() == event);
        assert(H::reacts(
            all.last(),
            before,
            conn.without_handler(),
            handler_after,
            conn.without_handler(),
        ));
    } else {
        assert(all =~= heard);
    }
}

proof fn lemma_hears_transfer<H: ConnectionHandler>(
    handler: H,
    heard: Seq<Event>,
    conn: ConnectionView<H>,
    meta: TcpMeta,
    data: Seq<u8>,
    after: ConnectionView<H>,
    did_something: bool,
)
    requires
        only_watches::<H>(),
        conn.event_handler matches Some(before) && hears(handler, heard, before),
        conn.transfers(meta, data, after, did_something),
    ensures
        after.event_handler matches Some(handler_after) && hears(
            handler,
            heard + transfer_events(conn, meta, data),
            handler_after,
        ),
{
    let direction = conn.direction(meta);
    let moved = conn.moved(meta, data);
    let got_data = conn.brings_data(meta, data);
    let got_fin = conn.brings_fin(meta);
    let got_end = conn.brings_end(meta);
    let (fed, finished, ended) = choose|
        fed: ConnectionView<H>,
        finished: ConnectionView<H>,
        ended: ConnectionView<H>,
    |
        {
            &&& #[trigger] moved.told_if(got_data, Event::DataReceived(direction), fed)
            &&& #[trigger] fed.told_if(got_fin, Event::FinReceived(direction), finished)
            &&& #[trigger] finished.told_if(
                got_end,
                Event::StreamEnd(direction.opposite()),
                ended,
            )
            &&& after == if got_end && conn.stream(direction).has_ended {
                ended.closed()
            } else {
                ended
            }
        };
    let first = event_if(got_data, Event::DataReceived(direction));
    let second = event_if(got_fin, Event::FinReceived(direction));
    let third = event_if(got_end, Event::StreamEnd(direction.opposite()));
    lemma_hears_one_more(handler, heard, moved, got_data, Event::DataReceived(direction), fed);
    lemma_hears_one_more(
        handler,
        heard + first,
        fed,
        got_fin,
        Event::FinReceived(direction),
        finished,
    );
    lemma_hears_one_more(
        handler,
        heard + first + second,
        finished,
        got_end,
        Event::StreamEnd(direction.opposite()),
        ended,
    );
    assert(heard + first + second + third =~= heard + transfer_events(conn, meta, data));
}

/// A handler that only watches hears of the events that a packet raises, each once
/// and in order, and of no others.
pub proof fn law_handler_hears_events<H: ConnectionHandler>(
    conn: ConnectionView<H>,
    meta: TcpMeta,
    data: Seq<u8>,
    after: ConnectionView<H>,
    did_something: bool,
)
    requires
        only_watches::<H>(),
        conn.handles(meta, data, after, did_something),
        conn.event_handler is Some,
    ensures
        after.event_handler is Some,
        hears(
            conn.event_handler->Some_0,
            events(conn, meta, data),
            after.event_handler->Some_0,
        ),
{
    let handler = conn.event_handler->Some_0;
    let none = Seq::<Event>::empty();
    if meta.flags.syn || meta.flags.rst {
    } else if conn.in_handshake() {
        let start = conn.past_handshake(meta);
        let open = choose|open: ConnectionView<H>|
            {
                &&& #[trigger] start.told(Event::HandshakeDone, open)
                &&& if data.len() > 0 {
                    open.concerns(meta) && open.transfers(meta, data, after, did_something)
                } else {
                    after == open && did_something
                }
            };
        let done = seq![Event::HandshakeDone];
        lemma_hears_one_more(handler, none, start, true, Event::HandshakeDone, open);
        assert(none + done =~= done);
        if data.len() > 0 {
            lemma_hears_transfer(handler, done, open, meta, data, after, did_something);
            assert(open.direction(meta) == start.direction(meta));
            assert(transfer_events(open, meta, data) =~= transfer_events(start, meta, data));
        }
    } else {
        lemma_hears_transfer(handler, none, conn, meta, data, after, did_something);
        assert(none + transfer_events(conn, meta, data) =~= transfer_events(conn, meta, data));
    }
}

/// A packet: metadata and data.
pub type Packet = (TcpMeta, Seq<u8>);

/// Whether a connection can go from `conns[i]` to `conns[i + 1]` by handling
/// `packets[i]`.
pub open spec fn is_step<H: ConnectionHandler>(
    conns: Seq<ConnectionView<H>>,
    packets: Seq<Packet>,
    i: int,
) -> bool {
    exists|did_something: bool| #[trigger]
        conns[i].handles(packets[i].0, packets[i].1, conns[i + 1], did_something)
}

/// Whether a connection of which nothing was seen can go through the states
/// `conns` by handling `packets`.
pub open spec fn is_run<H: ConnectionHandler>(
    conns: Seq<ConnectionView<H>>,
    packets: Seq<Packet>,
) -> bool {
    &&& conns.len() == packets.len() + 1
    &&& conns[0].without_handler() == ConnectionView::<H>::unseen(
        conns[0].uuid,
        conns[0].forward_flow,
    )
    &&& forall|i: int| 0 <= i < packets.len() ==> #[trigger] is_step(conns, packets, i)
}

/// Under a handler that only watches, a connection is coherent after any number of
/// packets.
pub proof fn law_run_stays_coherent<H: ConnectionHandler>(
    conns: Seq<ConnectionView<H>>,
    packets: Seq<Packet>,
    n: int,
)
    requires
        only_watches::<H>(),
        is_run(conns, packets),
        0 <= n < conns.len(),
    ensures
        coherent(conns[n]),
    decreases n,
{
    if n == 0 {
        let unseen = ConnectionView::<H>::unseen(conns[0].uuid, conns[0].forward_flow);
        assert(conns[0].without_handler().forward_stream == unseen.forward_stream);
        assert(conns[0].without_handler().reverse_stream == unseen.reverse_stream);
        assert(conns[0].without_handler().conn_state == unseen.conn_state);
        assert(conns[0].without_handler().observed_close == unseen.observed_close);
        assert(conns[0].without_handler().observed_handshake == unseen.observed_handshake);
    } else {
        law_run_stays_coherent(conns, packets, n - 1);
        assert(is_step(conns, packets, n - 1));
        let did_something = choose|did_something: bool| #[trigger]
            conns[n - 1].handles(packets[n - 1].0, packets[n - 1].1, conns[n], did_something);
        law_connection_stays_coherent(
            conns[n - 1],
            packets[n - 1].0,
            packets[n - 1].1,
            conns[n],
            did_something,
        );
    }
}

/// Under a handler that only watches, a connection has come no less far after more
/// packets.
pub proof fn law_run_never_goes_back<H: ConnectionHandler>(
    conns: Seq<ConnectionView<H>>,
    packets: Seq<Packet>,
    i: int,
    j: int,
)
    requires
        only_watches::<H>(),
        is_run(conns, packets),
        0 <= i <= j < conns.len(),
    ensures
        progress(conns[i].conn_state) <= progress(conns[j].conn_state),
    decreases j - i,
{
    if i < j {
        law_run_never_goes_back(conns, packets, i, j - 1);
        assert(is_step(conns, packets, j - 1));
        let did_something = choose|did_something: bool| #[trigger]
            conns[j - 1].handles(packets[j - 1].0, packets[j - 1].1, conns[j], did_something);
        law_connection_never_goes_back(
            conns[j - 1],
            packets[j - 1].0,
            packets[j - 1].1,
            conns[j],
            did_something,
        );
    }
}

/// The events of the packet `packets[i]`.
pub open spec fn events_at<H>(
    conns: Seq<ConnectionView<H>>,
    packets: Seq<Packet>,
    i: int,
) -> Seq<Event> {
    events(conns[i], packets[i].0, packets[i].1)
}

/// The end of the handshake is the first event of a packet that ends it, and no
/// event of any other packet.
proof fn lemma_handshake_event<H>(conn: ConnectionView<H>, meta: TcpMeta, data: Seq<u8>)
    ensures
        events(conn, meta, data).contains(Event::HandshakeDone) == (conn.in_handshake()
            && !meta.flags.syn && !meta.flags.rst),
        events(conn, meta, data).contains(Event::HandshakeDone) ==> events(conn, meta, data)[0]
            == Event::HandshakeDone,
        forall|k: int|
            0 < k < events(conn, meta, data).len() ==> #[trigger] events(conn, meta, data)[k]
                != Event::HandshakeDone,
{
    let all = events(conn, meta, data);
    if conn.in_handshake() && !meta.flags.syn && !meta.flags.rst {
        assert(all[0] == Event::HandshakeDone);
    }
}

/// Under a handler that only watches, the end of the handshake is reported at most
/// once: by one packet at most, and by that packet as its first event only.
pub proof fn law_handshake_is_reported_once<H: ConnectionHandler>(
    conns: Seq<ConnectionView<H>>,
    packets: Seq<Packet>,
    i: int,
    k: int,
)
    requires
        only_watches::<H>(),
        is_run(conns, packets),
        0 <= i < packets.len(),
        0 <= k < events_at(conns, packets, i).len(),
        events_at(conns, packets, i)[k] == Event::HandshakeDone,
    ensures
        k == 0,
        forall|j: int|
            0 <= j < packets.len() && j != i ==> !#[trigger] events_at(
                conns,
                packets,
                j,
            ).contains(Event::HandshakeDone),
{
    lemma_handshake_event(conns[i], packets[i].0, packets[i].1);
    assert(events_at(conns, packets, i).contains(Event::HandshakeDone));
    assert forall|j: int| 0 <= j < packets.len() && j != i implies !#[trigger] events_at(
        conns,
        packets,
        j,
    ).contains(Event::HandshakeDone) by {
        lemma_handshake_event(conns[j], packets[j].0, packets[j].1);
        if events_at(conns, packets, j).contains(Event::HandshakeDone) {
            let (first, later) = if i < j {
                (i, j)
            } else {
                (j, i)
            };
            lemma_handshake_is_over(conns, packets, first);
            law_run_never_goes_back(conns, packets, first + 1, later);
        }
    }
}

/// After the packet that ends it, the handshake is over.
proof fn lemma_handshake_is_over<H: ConnectionHandler>(
    conns: Seq<ConnectionView<H>>,
    packets: Seq<Packet>,
    i: int,
)
    requires
        only_watches::<H>(),
        is_run(conns, packets),
        0 <= i < packets.len(),
        !packets[i].0.flags.syn && !packets[i].0.flags.rst,
    ensures
        progress(conns[i + 1].conn_state) >= 3,
{
    assert(is_step(conns, packets, i));
    let did_something = choose|did_something: bool| #[trigger]
        conns[i].handles(packets[i].0, packets[i].1, conns[i + 1], did_something);
    law_watched_connection_has_one_outcome(
        conns[i],
        packets[i].0,
        packets[i].1,
        conns[i + 1],
        did_something,
    );
    assert(conns[i + 1].conn_state == outcome(
        conns[i],
        packets[i].0,
        packets[i].1,
    ).conn_state);
}

/// Whether `packets[i]` reports the end of the handshake, or resets the connection.
pub open spec fn opens_or_resets<H>(
    conns: Seq<ConnectionView<H>>,
    packets: Seq<Packet>,
    i: int,
) -> bool {
    ||| events_at(conns, packets, i).contains(Event::HandshakeDone)
    ||| packets[i].0.flags.rst && !packets[i].0.flags.syn
}

/// A connection past its handshake got there by the end of it, or by a reset.
proof fn lemma_past_handshake_has_a_cause<H: ConnectionHandler>(
    conns: Seq<ConnectionView<H>>,
    packets: Seq<Packet>,
    n: int,
)
    requires
        only_watches::<H>(),
        is_run(conns, packets),
        0 <= n < conns.len(),
        progress(conns[n].conn_state) >= 3,
    ensures
        exists|i: int| 0 <= i < n && #[trigger] opens_or_resets(conns, packets, i),
    decreases n,
{
    if n == 0 {
        assert(conns[0].without_handler().conn_state is Uninitialized);
    } else if progress(conns[n - 1].conn_state) >= 3 {
        lemma_past_handshake_has_a_cause(conns, packets, n - 1);
        let i = choose|i: int| 0 <= i < n - 1 && #[trigger] opens_or_resets(conns, packets, i);
        assert(opens_or_resets(conns, packets, i));
    } else {
        let (meta, data) = packets[n - 1];
        lemma_handshake_event(conns[n - 1], meta, data);
        assert(is_step(conns, packets, n - 1));
        let did_something = choose|did_something: bool| #[trigger]
            conns[n - 1].handles(packets[n - 1].0, packets[n - 1].1, conns[n], did_something);
        assert(opens_or_resets(conns, packets, n - 1));
    }
}

/// Under a handler that only watches, no data, no FIN and no end of a stream is
/// reported before the end of the handshake, unless a reset came before: a packet
/// that raises an event has as its first one the end of the handshake, or comes
/// after a packet that reported it or reset the connection.
pub proof fn law_events_follow_the_handshake<H: ConnectionHandler>(
    conns: Seq<ConnectionView<H>>,
    packets: Seq<Packet>,
    j: int,
)
    requires
        only_watches::<H>(),
        is_run(conns, packets),
        0 <= j < packets.len(),
        events_at(conns, packets, j).len() > 0,
    ensures
        events_at(conns, packets, j)[0] == Event::HandshakeDone || exists|i: int|
            0 <= i < j && #[trigger] opens_or_resets(conns, packets, i),
{
    lemma_handshake_event(conns[j], packets[j].0, packets[j].1);
    if !conns[j].in_handshake() {
        lemma_past_handshake_has_a_cause(conns, packets, j);
    }
}

} // verus!
