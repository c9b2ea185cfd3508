use parse_tcp::direction::Direction;
use parse_tcp::flow_table::{Flow, FlowCompare};
use parse_tcp::reassembly::Reassembler;
use parse_tcp::stream::Stream;
use parse_tcp::{IpAddr, TcpFlags, TcpMeta, Zeroed};

fn meta() -> TcpMeta {
    TcpMeta {
        src_addr: [23, 146, 104, 1].into(),
        src_port: 5,
        dst_addr: IpAddr::V6(7),
        dst_port: 6,
        seq_number: 0,
        ack_number: 0,
        flags: TcpFlags::default(),
        window: 0,
        option_window_scale: None,
        option_timestamp: Some((1, 2)),
    }
}

fn stream(isn: u32) -> Stream {
    let mut stream = Stream::new();
    stream.set_isn(isn, 10);
    stream
}

#[test]
fn directions() {
    assert_eq!(Direction::Forward.swap(), Direction::Reverse);
    assert_eq!(Direction::Reverse.swap(), Direction::Forward);
    assert_eq!(Direction::Forward.to_string(), "forward");
    assert_eq!(Direction::Reverse.to_string(), "reverse");
}

#[test]
fn zeroed_buffers() {
    assert_eq!(Vec::<u8>::zeroed(0), Vec::<u8>::new());
    assert_eq!(Vec::<u8>::zeroed(3), vec![0u8, 0, 0]);
}

#[test]
fn addresses_and_flags() {
    assert_eq!(IpAddr::from([23, 146, 104, 1]), IpAddr::V4(0x1792_6801));
    assert_eq!(IpAddr::from([255, 255, 255, 255]), IpAddr::V4(u32::MAX));
    assert_ne!(IpAddr::V4(7), IpAddr::V6(7));
    let flags = TcpFlags::default();
    assert!(!flags.syn && !flags.ack && !flags.fin && !flags.rst);
}

#[test]
fn flows() {
    let along = meta();
    let mut against = along;
    against.src_addr = along.dst_addr;
    against.dst_addr = along.src_addr;
    against.src_port = along.dst_port;
    against.dst_port = along.src_port;
    let mut unrelated = along;
    unrelated.src_port = 50;

    let mut flow: Flow = along.into();
    assert_eq!(flow.compare_tcp_meta(&along), FlowCompare::Forward);
    assert_eq!(flow.compare_tcp_meta(&against), FlowCompare::Reverse);
    assert_eq!(flow.compare_tcp_meta(&unrelated), FlowCompare::Unrelated);
    flow.reverse();
    assert_eq!(flow, Flow::from(against));
    assert_eq!(flow.compare_tcp_meta(&along), FlowCompare::Reverse);
    assert_eq!(flow.compare_tcp_meta(&against), FlowCompare::Forward);
    flow.reverse();
    assert_eq!(flow, Flow::from(along));

    let mut own = along;
    own.dst_addr = own.src_addr;
    own.dst_port = own.src_port;
    assert_eq!(Flow::from(own).compare_tcp_meta(&own), FlowCompare::Forward);
}

#[test]
fn data_out_of_order() {
    let mut stream = stream(100);
    assert!(stream.handle_data_packet(103, b"def"));
    assert_eq!(stream.readable_buffered_length(), 0);
    assert!(stream.handle_data_packet(108, b"ij"));
    assert!(stream.handle_data_packet(100, b"abc"));
    assert_eq!(stream.readable_buffered_length(), 6);
    assert!(!stream.handle_data_packet(102, b"XYZ"));
    assert!(stream.handle_data_packet(104, b"efgh"));
    assert_eq!(stream.readable_buffered_length(), 10);
    assert!(!stream.handle_data_packet(100, b"abcdefghij"));
    assert!(!stream.handle_data_packet(110, &[]));
}

#[test]
fn data_before_the_start() {
    let mut stream = stream(100);
    assert!(!stream.handle_data_packet(90, b"0123456789"));
    assert_eq!(stream.readable_buffered_length(), 0);
    assert!(stream.handle_data_packet(98, b"xxab"));
    assert_eq!(stream.readable_buffered_length(), 2);
}

#[test]
fn data_across_the_wrap() {
    let mut stream = stream(u32::MAX - 1);
    assert!(stream.handle_data_packet(1, b"d"));
    assert!(stream.handle_data_packet(u32::MAX - 1, b"abc"));
    assert_eq!(stream.readable_buffered_length(), 4);
    assert!(!stream.handle_data_packet(u32::MAX, b"bcd"));
    assert!(stream.handle_data_packet(2, b"e"));
    assert_eq!(stream.readable_buffered_length(), 5);
}

#[test]
fn acknowledgments() {
    let mut stream = stream(u32::MAX);
    assert!(!stream.handle_ack_packet(u32::MAX, 10));
    assert!(stream.handle_ack_packet(4, 10));
    assert_eq!(stream.acked, 4);
    // too old to say anything
    assert!(!stream.handle_ack_packet(3, 99));
    assert_eq!((stream.acked, stream.window), (4, 10));
    assert!(stream.handle_ack_packet(4, 20));
    assert_eq!((stream.acked, stream.window), (4, 20));
    assert!(!stream.has_ended);
}

#[test]
fn end_of_stream() {
    let mut one = stream(100);
    assert!(one.handle_fin_packet(100, 5));
    assert!(!one.handle_fin_packet(200, 5));
    assert_eq!(one.fin, Some(105));
    assert!(one.handle_ack_packet(105, 10));
    assert!(!one.has_ended);
    assert!(one.handle_ack_packet(106, 10));
    assert!(one.has_ended);
    assert!(!one.handle_ack_packet(106, 10));

    // acknowledged before it was seen: the next acknowledgment ends the stream
    let mut other = stream(100);
    assert!(other.handle_ack_packet(106, 10));
    assert!(other.handle_fin_packet(105, 0));
    assert!(!other.has_ended);
    assert!(other.handle_ack_packet(106, 10));
    assert!(other.has_ended);

    // the FIN may lie behind the wrap
    let mut third = stream(u32::MAX);
    assert!(third.handle_fin_packet(u32::MAX, 3));
    assert_eq!(third.fin, Some(2));
}

#[test]
fn setting_the_start_begins_anew() {
    let mut stream = stream(100);
    stream.window_scale = 4;
    stream.had_reset = true;
    stream.handle_data_packet(100, b"abc");
    stream.handle_fin_packet(103, 0);
    stream.handle_ack_packet(104, 10);
    assert!(stream.has_ended);
    stream.set_isn(7, 8);
    assert_eq!((stream.isn, stream.window, stream.acked, stream.fin), (7, 8, 7, None));
    assert!(!stream.has_ended && stream.had_reset);
    assert_eq!(stream.window_scale, 4);
    assert_eq!(stream.readable_buffered_length(), 0);
}

#[test]
fn reassembler_by_distance() {
    let mut bytes = Reassembler::new();
    assert_eq!(bytes.readable_length(), 0);
    assert!(bytes.accept(2, b"c"));
    assert!(!bytes.accept(2, b"c"));
    assert!(!bytes.accept(-1, b"x"));
    assert!(!bytes.accept(i64::MIN, b"x"));
    assert!(bytes.accept(i64::MAX, b"x"));
    assert!(bytes.accept(0, b"ab"));
    assert_eq!(bytes.readable_length(), 3);
    assert!(!bytes.accept(-3, b"abc"));
    assert!(bytes.accept(-3, b"abcd"));
    assert_eq!(bytes.readable_length(), 4);
}
