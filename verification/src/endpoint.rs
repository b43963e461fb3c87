//! Network endpoints as plain values.

use vstd::prelude::*;

verus! {

/// The address part of an endpoint.
#[derive(Clone, Copy, Debug, PartialEq, Eq, Structural)]
pub enum Host {
    /// An IPv4 address: its four octets, the first in the highest byte.
    V4 { octets: u32 },
    /// An IPv6 address: its eight segments, the first in the highest bits,
    /// with the flow label and the scope.
    V6 { segments: u128, flowinfo: u32, scope_id: u32 },
}

/// An address and a port: where a datagram came from or where it goes.
#[derive(Clone, Copy, Debug, PartialEq, Eq, Structural)]
pub struct Endpoint {
    pub host: Host,
    pub port: u16,
}

impl Endpoint {
    /// The IPv4 endpoint with the given address and port.
    pub fn v4(octets: u32, port: u16) -> (endpoint: Endpoint)
        ensures
            endpoint == (Endpoint { host: Host::V4 { octets }, port }),
    {
        Endpoint { host: Host::V4 { octets }, port }
    }

    /// The IPv6 endpoint with the given address, port, flow label and scope.
    pub fn v6(segments: u128, port: u16, flowinfo: u32, scope_id: u32) -> (endpoint: Endpoint)
        ensures
            endpoint == (Endpoint { host: Host::V6 { segments, flowinfo, scope_id }, port }),
    {
        Endpoint { host: Host::V6 { segments, flowinfo, scope_id }, port }
    }

    /// Whether two endpoints are the same address and port.
    pub fn same(&self, other: &Endpoint) -> (same: bool)
        ensures
            same == (*self == *other),
    {
        *self == *other
    }
}

} // verus!
