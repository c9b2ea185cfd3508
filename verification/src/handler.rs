//! What the users of a connection supply: the code that its events run.

use vstd::prelude::*;

use crate::connection::Connection;
use crate::direction::Direction;
use crate::model::ConnectionView;

verus! {

/// The events of a connection.
pub enum Event {
    /// the handshake is over
    HandshakeDone,
    /// new data in a direction
    DataReceived(Direction),
    /// first FIN in a direction
    FinReceived(Direction),
    /// reset in a direction; connections do not raise it by themselves
    RstReceived(Direction),
    /// the FIN in a direction has been acknowledged
    StreamEnd(Direction),
    /// the connection is about to be dropped
    WillRetire,
}

/// Event handler of a connection. A handler may do as it likes with the
/// connection that it is handed, except that the connection has no handler
/// meanwhile.
pub trait ConnectionHandler: Sized {
    /// Whether this kind of handler can, when it is made for the connection
    /// `conn`, come out as `handler` and leave the connection as `conn_after`.
    /// Nothing is ruled out unless an implementation says so.
    open spec fn creates(
        conn: ConnectionView<Self>,
        conn_after: ConnectionView<Self>,
        handler: Self,
    ) -> bool {
        true
    }

    /// Whether `handler` can, on an event of the connection `conn`, turn into
    /// `handler_after` and leave the connection as `conn_after`. Nothing is ruled
    /// out unless an implementation says so.
    open spec fn reacts(
        event: Event,
        handler: Self,
        conn: ConnectionView<Self>,
        handler_after: Self,
        conn_after: ConnectionView<Self>,
    ) -> bool {
        true
    }

    /// called upon connection creation
    fn new(conn: &mut Connection<Self>) -> (handler: Self)
        ensures
            Self::creates(old(conn)@, final(conn)@, handler),
    ;

    /// called when the handshake is complete, or was missed
    fn handshake_done(&mut self, conn: &mut Connection<Self>)
        ensures
            Self::reacts(
                Event::HandshakeDone,
                *old(self),
                old(conn)@,
                *final(self),
                final(conn)@,
            ),
    ;

    /// called when new data was received
    fn data_received(&mut self, conn: &mut Connection<Self>, direction: Direction)
        ensures
            Self::reacts(
                Event::DataReceived(direction),
                *old(self),
                old(conn)@,
                *final(self),
                final(conn)@,
            ),
    ;

    /// called when the first FIN was received
    fn fin_received(&mut self, conn: &mut Connection<Self>, direction: Direction)
        ensures
            Self::reacts(
                Event::FinReceived(direction),
                *old(self),
                old(conn)@,
                *final(self),
                final(conn)@,
            ),
    ;

    /// for resets; a connection does not call it by itself
    fn rst_received(&mut self, conn: &mut Connection<Self>, direction: Direction)
        ensures
            Self::reacts(
                Event::RstReceived(direction),
                *old(self),
                old(conn)@,
                *final(self),
                final(conn)@,
            ),
    ;

    /// called when the FIN of a stream was acknowledged
    fn stream_end(&mut self, conn: &mut Connection<Self>, direction: Direction)
        ensures
            Self::reacts(
                Event::StreamEnd(direction),
                *old(self),
                old(conn)@,
                *final(self),
                final(conn)@,
            ),
    ;

    /// called before the connection is dropped
    fn will_retire(&mut self, conn: &mut Connection<Self>)
        ensures
            Self::reacts(Event::WillRetire, *old(self), old(conn)@, *final(self), final(conn)@),
    ;
}

} // verus!
