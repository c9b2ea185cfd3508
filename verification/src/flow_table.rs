//! Flows: the pair of endpoints between which a connection's packets travel.

use vstd::prelude::*;

use crate::meta::{IpAddr, TcpMeta};

verus! {

/// flow tuple, in the order of a packet that travels along with it
#[derive(Clone, Copy, Debug, PartialEq, Eq, Structural)]
pub struct Flow {
    /// source address
    pub src_addr: IpAddr,
    /// source port
    pub src_port: u16,
    /// destination address
    pub dst_addr: IpAddr,
    /// destination port
    pub dst_port: u16,
}

/// how a packet relates to a flow
#[derive(Clone, Copy, Debug, PartialEq, Eq, Structural)]
pub enum FlowCompare {
    /// travels along with the flow
    Forward,
    /// travels against the flow
    Reverse,
    /// belongs to another flow
    Unrelated,
}

/// The flow that a packet travels along with.
pub open spec fn flow_of(meta: TcpMeta) -> Flow {
    Flow {
        src_addr: meta.src_addr,
        src_port: meta.src_port,
        dst_addr: meta.dst_addr,
        dst_port: meta.dst_port,
    }
}

impl From<TcpMeta> for Flow {
    /// The flow that a packet travels along with.
    fn from(meta: TcpMeta) -> (flow: Flow) {
        Flow {
            src_addr: meta.src_addr,
            src_port: meta.src_port,
            dst_addr: meta.dst_addr,
            dst_port: meta.dst_port,
        }
    }
}

impl vstd::std_specs::convert::FromSpecImpl<TcpMeta> for Flow {
    open spec fn obeys_from_spec() -> bool {
        true
    }

    open spec fn from_spec(meta: TcpMeta) -> Flow {
        flow_of(meta)
    }
}

impl Flow {
    /// The flow with its endpoints exchanged.
    pub open spec fn reversed(self) -> Flow {
        Flow {
            src_addr: self.dst_addr,
            src_port: self.dst_port,
            dst_addr: self.src_addr,
            dst_port: self.src_port,
        }
    }

    /// How a packet relates to this flow. Where both endpoints are the same, it
    /// counts as travelling along.
    pub open spec fn relation(self, meta: TcpMeta) -> FlowCompare {
        if flow_of(meta) == self {
            FlowCompare::Forward
        } else if flow_of(meta) == self.reversed() {
            FlowCompare::Reverse
        } else {
            FlowCompare::Unrelated
        }
    }

    /// exchange source and destination
    pub fn reverse(&mut self)
        ensures
            *final(self) == old(self).reversed(),
    {
        *self = Flow {
            src_addr: self.dst_addr,
            src_port: self.dst_port,
            dst_addr: self.src_addr,
            dst_port: self.src_port,
        };
    }

    /// compare the endpoints of a packet to this flow
    pub fn compare_tcp_meta(&self, meta: &TcpMeta) -> (order: FlowCompare)
        ensures
            order == self.relation(*meta),
    {
        if self.src_addr == meta.src_addr && self.src_port == meta.src_port && self.dst_addr
            == meta.dst_addr && self.dst_port == meta.dst_port {
            FlowCompare::Forward
        } else if self.src_addr == meta.dst_addr && self.src_port == meta.dst_port && self.dst_addr
            == meta.src_addr && self.dst_port == meta.src_port {
            FlowCompare::Reverse
        } else {
            FlowCompare::Unrelated
        }
    }
}

} // verus!
