//! What is known of one TCP packet besides its payload.

use vstd::prelude::*;

verus! {

/// IP address, as the number that its octets spell in network byte order
#[derive(Clone, Copy, Debug, PartialEq, Eq, Hash, Structural)]
pub enum IpAddr {
    /// IPv4 address
    V4(u32),
    /// IPv6 address
    V6(u128),
}

/// The number that four octets spell, the most significant one first.
pub open spec fn big_endian(octets: Seq<u8>) -> int {
    ((octets[0] * 256 + octets[1]) * 256 + octets[2]) * 256 + octets[3]
}

impl From<[u8; 4]> for IpAddr {
    /// The IPv4 address with these octets.
    fn from(octets: [u8; 4]) -> (addr: IpAddr) {
        let high: u32 = octets[0] as u32 * 256 + octets[1] as u32;
        let low: u32 = octets[2] as u32 * 256 + octets[3] as u32;
        IpAddr::V4(high * 65536 + low)
    }
}

impl vstd::std_specs::convert::FromSpecImpl<[u8; 4]> for IpAddr {
    open spec fn obeys_from_spec() -> bool {
        true
    }

    open spec fn from_spec(octets: [u8; 4]) -> IpAddr {
        IpAddr::V4(big_endian(octets@) as u32)
    }
}

/// TCP packet flags
#[derive(Clone, Copy, Debug, PartialEq, Eq, Structural)]
pub struct TcpFlags {
    /// synchronize sequence numbers
    pub syn: bool,
    /// the acknowledgment number is significant
    pub ack: bool,
    /// no more data from sender
    pub fin: bool,
    /// reset the connection
    pub rst: bool,
}

impl Default for TcpFlags {
    /// No flag set.
    fn default() -> (flags: TcpFlags)
        ensures
            !flags.syn && !flags.ack && !flags.fin && !flags.rst,
    {
        TcpFlags { syn: false, ack: false, fin: false, rst: false }
    }
}

/// TCP packet metadata
#[derive(Clone, Copy, Debug)]
pub struct TcpMeta {
    /// source address
    pub src_addr: IpAddr,
    /// source port
    pub src_port: u16,
    /// destination address
    pub dst_addr: IpAddr,
    /// destination port
    pub dst_port: u16,
    /// sequence number
    pub seq_number: u32,
    /// acknowledgment number
    pub ack_number: u32,
    /// packet flags
    pub flags: TcpFlags,
    /// window size
    pub window: u16,
    /// window scale option, if present
    pub option_window_scale: Option<u8>,
    /// timestamp option, if present: timestamp value and echo reply
    pub option_timestamp: Option<(u32, u32)>,
}

} // verus!
