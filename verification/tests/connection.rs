use parse_tcp::connection::{Connection, ConnectionState};
use parse_tcp::direction::Direction;
use parse_tcp::flow_table::{Flow, FlowCompare};
use parse_tcp::{ConnectionHandler, TcpFlags, TcpMeta};
use std::mem;

/// swap src/dest ip/port and seq/ack
fn swap_meta(meta: &TcpMeta) -> TcpMeta {
    let mut out = meta.clone();
    mem::swap(&mut out.src_addr, &mut out.dst_addr);
    mem::swap(&mut out.src_port, &mut out.dst_port);
    mem::swap(&mut out.seq_number, &mut out.ack_number);
    out
}

/// notes what it hears
struct TestHandler {
    handshake_done: bool,
    events: Vec<String>,
    redirect_to: Option<Flow>,
}

impl TestHandler {
    fn note(&mut self, conn: &Connection<Self>, event: String) {
        assert!(conn.event_handler.is_none());
        self.events.push(event);
    }
}

impl ConnectionHandler for TestHandler {
    fn new(conn: &mut Connection<Self>) -> Self {
        assert!(conn.event_handler.is_none());
        assert!(matches!(conn.conn_state, ConnectionState::Uninitialized));
        TestHandler { handshake_done: false, events: Vec::new(), redirect_to: None }
    }
    fn handshake_done(&mut self, conn: &mut Connection<Self>) {
        self.handshake_done = true;
        self.note(conn, "handshake".to_string());
        if let Some(flow) = self.redirect_to {
            conn.forward_flow = flow;
        }
    }
    fn data_received(&mut self, conn: &mut Connection<Self>, direction: Direction) {
        self.note(conn, format!("data {}", direction.to_string()));
    }
    fn fin_received(&mut self, conn: &mut Connection<Self>, direction: Direction) {
        self.note(conn, format!("fin {}", direction.to_string()));
    }
    fn rst_received(&mut self, conn: &mut Connection<Self>, direction: Direction) {
        self.note(conn, format!("rst {}", direction.to_string()));
    }
    fn stream_end(&mut self, conn: &mut Connection<Self>, direction: Direction) {
        self.note(conn, format!("end {}", direction.to_string()));
    }
    fn will_retire(&mut self, conn: &mut Connection<Self>) {
        self.note(conn, "retire".to_string());
    }
}

fn flags(letters: &str) -> TcpFlags {
    TcpFlags {
        syn: letters.contains('S'),
        ack: letters.contains('A'),
        fin: letters.contains('F'),
        rst: letters.contains('R'),
    }
}

/// packet from client to server
fn to_server(letters: &str, seq_number: u32, ack_number: u32) -> TcpMeta {
    TcpMeta {
        src_addr: [10, 0, 0, 1].into(),
        src_port: 40000,
        dst_addr: [10, 0, 0, 2].into(),
        dst_port: 80,
        seq_number,
        ack_number,
        flags: flags(letters),
        window: 1000,
        option_window_scale: None,
        option_timestamp: None,
    }
}

/// packet from server to client
fn to_client(letters: &str, seq_number: u32, ack_number: u32) -> TcpMeta {
    swap_meta(&to_server(letters, ack_number, seq_number))
}

fn fresh() -> Connection<TestHandler> {
    Connection::new(to_server("", 0, 0).into())
}

/// connection after a full handshake: client data start at 101, server data at 501
fn open() -> Connection<TestHandler> {
    let mut conn = fresh();
    assert!(conn.handle_packet(to_server("S", 100, 0), &[]));
    assert!(conn.handle_packet(to_client("SA", 500, 101), &[]));
    assert!(conn.handle_packet(to_server("A", 101, 501), &[]));
    assert_eq!(events(&mut conn), ["handshake"]);
    conn
}

/// the events since the last call
fn events(conn: &mut Connection<TestHandler>) -> Vec<String> {
    mem::take(&mut conn.event_handler.as_mut().unwrap().events)
}

#[test]
fn simple() {
    let hs1 = TcpMeta {
        src_addr: [91, 92, 144, 105].into(),
        src_port: 3161,
        dst_addr: [23, 146, 104, 1].into(),
        dst_port: 45143,
        seq_number: 1587232,
        ack_number: 0,
        flags: TcpFlags { syn: true, ..Default::default() },
        window: 256,
        option_window_scale: Some(2),
        option_timestamp: None,
    };

    let mut conn: Connection<TestHandler> = Connection::new(hs1.clone().into());
    assert!(conn.handle_packet(hs1.clone(), &[]));
    let mut hs2 = swap_meta(&hs1);
    hs2.seq_number = 315848;
    hs2.ack_number += 1;
    hs2.flags.ack = true;
    assert!(conn.handle_packet(hs2.clone(), &[]));
    let mut hs3 = swap_meta(&hs2);
    hs3.ack_number += 1;
    hs3.flags.syn = false;
    assert!(conn.handle_packet(hs3.clone(), &[]));

    let handler = conn.event_handler.as_mut().unwrap();
    assert!(handler.handshake_done);
    handler.handshake_done = false;

    let data1 = hs3.clone();
    assert!(conn.handle_packet(data1.clone(), b"test"));
    assert_eq!(conn.forward_stream.readable_buffered_length(), 4);
}

#[test]
fn new_connection_is_unseen() {
    let conn = fresh();
    assert!(matches!(conn.conn_state, ConnectionState::Uninitialized));
    assert!(!conn.observed_handshake);
    assert!(!conn.observed_close);
    assert_eq!(conn.forward_flow, Flow::from(to_server("", 0, 0)));
    assert_eq!(conn.forward_stream.readable_buffered_length(), 0);
    assert_eq!(conn.reverse_stream.readable_buffered_length(), 0);
    assert!(conn.event_handler.is_some());
}

#[test]
fn identifiers_are_random_uuids() {
    let one = uuid::Uuid::from_u128(fresh().uuid);
    let two = uuid::Uuid::from_u128(fresh().uuid);
    assert_eq!(one.get_version_num(), 4);
    assert_eq!(one.get_variant(), uuid::Variant::RFC4122);
    assert_ne!(one, two);
}

#[test]
fn full_handshake_is_observed() {
    let conn = open();
    assert!(matches!(
        conn.conn_state,
        ConnectionState::Established { forward_isn: 101, reverse_isn: 501 }
    ));
    assert!(conn.observed_handshake);
    assert!(!conn.observed_close);
    assert_eq!(conn.forward_stream.window, 1000);
    assert_eq!(conn.reverse_stream.window, 1000);
}

#[test]
fn handshake_numbers_wrap_around() {
    let mut conn = fresh();
    assert!(conn.handle_packet(to_server("S", u32::MAX, 0), &[]));
    assert!(conn.handle_packet(to_client("SA", u32::MAX, 0), &[]));
    assert!(conn.handle_packet(to_server("A", 0, 0), b"x"));
    assert!(conn.observed_handshake);
    assert!(matches!(
        conn.conn_state,
        ConnectionState::Established { forward_isn: 0, reverse_isn: 0 }
    ));
    assert_eq!(events(&mut conn), ["handshake", "data forward"]);
}

#[test]
fn syn_against_the_flow_turns_it() {
    let mut conn = fresh();
    let mut syn = to_client("S", 7, 0);
    syn.option_window_scale = Some(5);
    assert!(conn.handle_packet(syn, &[]));
    assert!(matches!(conn.conn_state, ConnectionState::SynSent { seq_no: 7 }));
    assert_eq!(conn.forward_flow.compare_tcp_meta(&syn), FlowCompare::Forward);
    assert_eq!(conn.forward_stream.window_scale, 5);
    assert_eq!(conn.reverse_stream.window_scale, 0);
}

#[test]
fn syn_ack_without_syn() {
    let mut conn = fresh();
    let mut syn_ack = to_server("SA", 500, 101);
    syn_ack.option_window_scale = Some(3);
    assert!(conn.handle_packet(syn_ack, &[]));
    assert!(matches!(
        conn.conn_state,
        ConnectionState::SynReceived { seq_no: 500, ack_no: 101, window_size: 1000, syn_seen: false }
    ));
    assert_eq!(conn.forward_flow.compare_tcp_meta(&syn_ack), FlowCompare::Reverse);
    assert_eq!(conn.forward_stream.window_scale, 0);
    assert_eq!(conn.reverse_stream.window_scale, 3);
    // the client is now the other one
    assert!(conn.handle_packet(to_client("A", 101, 501), &[]));
    assert!(!conn.observed_handshake);
    assert_eq!(conn.reverse_stream.window, 0);
    assert_eq!(conn.forward_stream.window, 1000);
}

#[test]
fn duplicate_syn_is_ignored() {
    let mut conn = fresh();
    assert!(conn.handle_packet(to_server("S", 100, 0), &[]));
    assert!(!conn.handle_packet(to_server("S", 999, 0), &[]));
    assert!(matches!(conn.conn_state, ConnectionState::SynSent { seq_no: 100 }));
    // SYN/ACK in the direction of the SYN
    assert!(!conn.handle_packet(to_server("SA", 500, 101), &[]));
    assert!(matches!(conn.conn_state, ConnectionState::SynSent { seq_no: 100 }));
    // an acknowledgment of something else is taken nevertheless
    assert!(conn.handle_packet(to_client("SA", 500, 42), &[]));
    assert!(!conn.handle_packet(to_client("SA", 501, 43), &[]));
    assert!(!conn.handle_packet(to_server("S", 100, 0), &[]));
    assert!(matches!(
        conn.conn_state,
        ConnectionState::SynReceived { seq_no: 500, ack_no: 42, window_size: 1000, syn_seen: true }
    ));
}

#[test]
fn syn_on_open_or_closed_connection_is_ignored() {
    let mut conn = open();
    assert!(!conn.handle_packet(to_server("S", 1, 0), &[]));
    assert!(!conn.handle_packet(to_client("SA", 1, 2), &[]));
    assert!(matches!(conn.conn_state, ConnectionState::Established { .. }));
    assert!(conn.handle_packet(to_server("R", 101, 0), &[]));
    assert!(!conn.handle_packet(to_server("S", 1, 0), &[]));
    // SYN takes precedence over RST
    assert!(!conn.handle_packet(to_server("SR", 1, 0), &[]));
    assert!(matches!(conn.conn_state, ConnectionState::Closed));
    assert_eq!(events(&mut conn).len(), 0);
}

#[test]
fn reset_closes_in_either_direction() {
    let mut conn = fresh();
    assert!(conn.handle_packet(to_server("R", 1, 0), &[]));
    assert!(matches!(conn.conn_state, ConnectionState::Closed));
    assert!(conn.observed_close);
    assert!(conn.forward_stream.had_reset);
    assert!(!conn.reverse_stream.had_reset);

    let mut conn = open();
    assert!(conn.handle_packet(to_client("RA", 501, 101), b"ignored"));
    assert!(matches!(conn.conn_state, ConnectionState::Closed));
    assert!(conn.observed_close);
    assert!(conn.observed_handshake);
    assert!(!conn.forward_stream.had_reset);
    assert!(conn.reverse_stream.had_reset);
    assert_eq!(conn.reverse_stream.readable_buffered_length(), 0);
    assert_eq!(events(&mut conn).len(), 0);
}

#[test]
fn data_before_handshake() {
    // nothing seen before
    let mut conn = fresh();
    assert!(conn.handle_packet(to_client("A", 700, 300), b"hello"));
    assert!(matches!(
        conn.conn_state,
        ConnectionState::Established { forward_isn: 300, reverse_isn: 700 }
    ));
    assert!(!conn.observed_handshake);
    assert_eq!(conn.reverse_stream.readable_buffered_length(), 5);
    assert_eq!(events(&mut conn), ["handshake", "data reverse"]);
    // only a SYN seen before, and no data
    let mut conn = fresh();
    assert!(conn.handle_packet(to_server("S", 100, 0), &[]));
    assert!(conn.handle_packet(to_server("AF", 101, 501), &[]));
    assert!(matches!(
        conn.conn_state,
        ConnectionState::Established { forward_isn: 101, reverse_isn: 501 }
    ));
    assert!(!conn.observed_handshake);
    // such a packet without data is not looked at any further
    assert_eq!(conn.forward_stream.fin, None);
    assert_eq!(events(&mut conn), ["handshake"]);
}

#[test]
fn lost_or_odd_final_ack() {
    for (packet, forward_isn, reverse_isn) in [
        (to_server("A", 102, 501), 102, 501),
        (to_server("A", 101, 502), 101, 502),
        (to_server("", 101, 501), 101, 501),
        (to_client("A", 501, 101), 101, 501),
    ] {
        let mut conn = fresh();
        assert!(conn.handle_packet(to_server("S", 100, 0), &[]));
        assert!(conn.handle_packet(to_client("SA", 500, 101), &[]));
        assert!(conn.handle_packet(packet, &[]));
        assert!(!conn.observed_handshake);
        assert_eq!(conn.reverse_stream.window, 0);
        assert_eq!(conn.forward_stream.window, 1000);
        match conn.conn_state {
            ConnectionState::Established { forward_isn: f, reverse_isn: r } => {
                assert_eq!((f, r), (forward_isn, reverse_isn));
            }
            _ => panic!("not established"),
        }
    }
}

#[test]
fn retransmitted_data_do_nothing() {
    let mut conn = open();
    let packet = to_server("AF", 101, 501);
    assert!(conn.handle_packet(packet, b"abc"));
    assert_eq!(events(&mut conn), ["data forward", "fin forward"]);
    assert!(!conn.handle_packet(packet, b"abc"));
    assert_eq!(events(&mut conn).len(), 0);
    assert_eq!(conn.forward_stream.readable_buffered_length(), 3);
    // a plain repeated acknowledgment
    assert!(!conn.handle_packet(to_server("A", 104, 501), &[]));
    // new window only
    let mut update = to_server("A", 104, 501);
    update.window = 2000;
    assert!(conn.handle_packet(update, &[]));
    assert!(!conn.handle_packet(update, &[]));
    assert_eq!(events(&mut conn).len(), 0);
}

#[test]
fn close_by_both_sides() {
    let mut conn = open();
    assert!(conn.handle_packet(to_server("AF", 101, 501), b"bye"));
    assert_eq!(events(&mut conn), ["data forward", "fin forward"]);
    // data acknowledged, FIN not yet
    assert!(conn.handle_packet(to_client("A", 501, 104), &[]));
    assert_eq!(events(&mut conn).len(), 0);
    // FIN acknowledged, along with a FIN of the server
    assert!(conn.handle_packet(to_client("AF", 501, 105), b"ok"));
    assert_eq!(events(&mut conn), ["data reverse", "fin reverse", "end forward"]);
    assert!(conn.forward_stream.has_ended);
    assert!(matches!(conn.conn_state, ConnectionState::Established { .. }));
    assert!(!conn.observed_close);
    assert!(conn.handle_packet(to_server("A", 105, 504), &[]));
    assert_eq!(events(&mut conn), ["end reverse"]);
    assert!(matches!(conn.conn_state, ConnectionState::Closed));
    assert!(conn.observed_close);
    // closed, but more data
    assert!(conn.handle_packet(to_server("A", 104, 504), b"?"));
    assert_eq!(events(&mut conn), ["data forward"]);
    assert!(matches!(conn.conn_state, ConnectionState::Closed));
}

#[test]
fn packets_keep_the_flow() {
    let mut conn = open();
    let flow = conn.forward_flow;
    assert!(conn.handle_packet(to_server("A", 101, 501), b"abc"));
    assert!(conn.handle_packet(to_client("R", 501, 0), &[]));
    assert_eq!(conn.forward_flow, flow);
}

#[test]
fn handler_that_redirects_the_connection() {
    let mut conn = fresh();
    let mut elsewhere = to_server("", 0, 0);
    elsewhere.src_port = 1;
    conn.event_handler.as_mut().unwrap().redirect_to = Some(elsewhere.into());
    // the data have nowhere to go
    assert_eq!(conn.try_handle_packet(to_server("A", 101, 501), b"abc"), None);
    assert_eq!(conn.forward_stream.readable_buffered_length(), 0);
    assert_eq!(events(&mut conn), ["handshake"]);
    assert_eq!(conn.forward_flow, Flow::from(elsewhere));
    assert!(matches!(conn.conn_state, ConnectionState::Established { .. }));
    // without data there is nothing to lose
    let mut conn = fresh();
    conn.event_handler.as_mut().unwrap().redirect_to = Some(elsewhere.into());
    assert!(conn.handle_packet(to_server("A", 101, 501), &[]));
    assert_eq!(conn.forward_flow, Flow::from(elsewhere));
}

#[test]
fn packets_that_may_belong() {
    let mut conn = fresh();
    for letters in ["S", "A", "R"] {
        let mut stray = to_server(letters, 1, 2);
        stray.dst_port = 81;
        assert_eq!(conn.try_handle_packet(stray, b"abc"), None);
        assert!(matches!(conn.conn_state, ConnectionState::Uninitialized));
    }
    assert_eq!(conn.try_handle_packet(to_server("S", 100, 0), &[]), Some(true));
    assert_eq!(conn.try_handle_packet(to_server("S", 100, 0), &[]), Some(false));
    assert_eq!(conn.try_handle_packet(to_client("SA", 500, 101), &[]), Some(true));
    assert_eq!(conn.try_handle_packet(to_server("A", 101, 501), b"abc"), Some(true));
    assert!(conn.observed_handshake);
    assert_eq!(conn.try_handle_packet(to_server("A", 101, 501), b"abc"), Some(false));
    assert_eq!(conn.forward_stream.readable_buffered_length(), 3);
    assert_eq!(conn.try_handle_packet(to_client("R", 501, 0), &[]), Some(true));
    assert_eq!(events(&mut conn), ["handshake", "data forward"]);

    let mut conn = fresh();
    assert_eq!(conn.try_handle_packet(to_client("A", 700, 300), b"hello"), Some(true));
    assert_eq!(conn.reverse_stream.readable_buffered_length(), 5);
    assert!(!conn.observed_handshake);
}

#[test]
fn acknowledgment_of_the_syn() {
    let mut conn = fresh();
    assert!(conn.acknowledges_syn(&to_client("SA", 500, 7)));
    assert!(conn.handle_packet(to_server("S", u32::MAX, 0), &[]));
    assert!(conn.acknowledges_syn(&to_client("SA", 500, 0)));
    assert!(!conn.acknowledges_syn(&to_client("SA", 500, 1)));
    assert!(!conn.acknowledges_syn(&to_client("SA", 500, u32::MAX)));
    assert!(open().acknowledges_syn(&to_client("SA", 500, 7)));
}

#[test]
fn handshake_is_reported_once() {
    let mut conn = open();
    assert!(conn.handle_packet(to_server("A", 101, 501), b"abc"));
    assert!(conn.handle_packet(to_client("AF", 501, 104), b"de"));
    assert!(conn.handle_packet(to_server("R", 104, 0), &[]));
    assert!(conn.handle_packet(to_server("A", 104, 504), b"f"));
    assert_eq!(
        events(&mut conn),
        ["data forward", "data reverse", "fin reverse", "data forward", "end reverse"]
    );
    // reset before anything else: data are reported, a handshake is not
    let mut conn = fresh();
    assert!(conn.handle_packet(to_server("R", 1, 0), &[]));
    assert!(conn.handle_packet(to_server("", 0, 0), b"abc"));
    assert_eq!(events(&mut conn), ["data forward"]);
}

#[test]
fn handler_that_turns_the_connection() {
    let mut conn = fresh();
    conn.event_handler.as_mut().unwrap().redirect_to = Some(to_client("", 0, 0).into());
    assert!(conn.handle_packet(to_server("A", 101, 101), b"abc"));
    assert_eq!(conn.reverse_stream.readable_buffered_length(), 3);
    assert_eq!(events(&mut conn), ["handshake", "data reverse"]);
}

#[test]
fn retirement_is_announced() {
    let mut conn = fresh();
    conn.will_retire();
    assert_eq!(events(&mut conn), ["retire"]);
    // without a handler nobody is told
    conn.event_handler = None;
    conn.will_retire();
    assert!(conn.event_handler.is_none());
}

#[test]
fn handler_is_lent_out_and_put_back() {
    let mut conn = fresh();
    conn.call_handler(|conn, handler| {
        assert!(conn.event_handler.is_none());
        conn.observed_close = true;
        handler.handshake_done = true;
    });
    assert!(conn.observed_close);
    assert!(conn.event_handler.as_ref().unwrap().handshake_done);
    conn.event_handler = None;
    conn.call_handler(|_, _| panic!("no handler to call"));
    assert!(conn.event_handler.is_none());
}

#[test]
fn connection_without_handler() {
    let mut conn = fresh();
    conn.event_handler = None;
    assert!(conn.handle_packet(to_server("AF", 101, 501), b"abc"));
    assert!(conn.event_handler.is_none());
    assert_eq!(conn.forward_stream.readable_buffered_length(), 3);
    assert_eq!(conn.forward_stream.fin, Some(104));
}
