# parse-tcp

Follows single TCP connections through the packets that an observer sees of
them, in Rust verified with [Verus](https://github.com/verus-lang/verus).

- `src/connection.rs`: a connection, and the functions that handle its packets
- `src/handler.rs`: the trait through which users hear of a connection's events
- `src/model.rs`: what packets and events do to a connection
- `src/laws.rs`, `src/runs.rs`: what holds of every connection, packet by packet
  and over all its packets
- `src/stream.rs`, `src/reassembly.rs`: one direction of a connection
- `src/flow_table.rs`, `src/meta.rs`, `src/direction.rs`: endpoints, packet
  metadata, directions
- `src/zeroed.rs`: buffers full of zeroes
- `app/`: logging around the library
- `tests/`: tests of the compiled library

A handler can do anything with the connection that it is handed, so what a packet
does is a relation between the connection before and after, which passes through
whatever the handler's own `reacts` allows. Under handlers that only watch, the
connection after a packet, but for the handler itself, is a function of the
connection before and the packet.
