//! Passive tracking of TCP connections: the packets that an observer sees of
//! one connection are followed through handshake, data transfer and close.

pub mod behaviour;
pub mod connection;
pub mod direction;
pub mod flow_table;
pub mod handler;
pub mod laws;
pub mod meta;
pub mod model;
pub mod packets;
pub mod reassembly;
pub mod runs;
pub mod stream;
pub mod zeroed;

pub use connection::{Connection, ConnectionState, HandlePacketResult};
pub use direction::Direction;
pub use handler::ConnectionHandler;
pub use meta::{IpAddr, TcpFlags, TcpMeta};
pub use zeroed::Zeroed;
