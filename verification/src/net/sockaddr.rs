//! Socket addresses and the system's layout of them (`sockaddr_in`, `sockaddr_in6`), as
//! plain values.
use vstd::prelude::*;

use crate::net::getaddrinfo::{AF_INET, AF_INET6};

verus! {

/// An internet socket address.
#[derive(Clone, Copy, PartialEq, Eq, Debug)]
pub enum SocketAddr {
    V4 { ip: [u8; 4], port: u16 },
    V6 { ip: [u8; 16], port: u16, flowinfo: u32, scope_id: u32 },
}

/// The fields of the system's form of a socket address, each as the bytes or the number
/// it holds; the port is in network byte order.
#[derive(Clone, Copy, PartialEq, Eq, Debug)]
pub enum SockAddrRepr {
    In { family: u16, port: [u8; 2], addr: [u8; 4] },
    In6 { family: u16, port: [u8; 2], flowinfo: u32, addr: [u8; 16], scope_id: u32 },
}

/// The size of `sockaddr_in`.
pub const SOCKADDR_IN_LEN: u32 = 16;
/// The size of `sockaddr_in6`.
pub const SOCKADDR_IN6_LEN: u32 = 28;

/// A port in network byte order: the high byte first.
pub open spec fn port_bytes(port: u16) -> [u8; 2] {
    [(port / 256) as u8, (port % 256) as u8]
}

/// The system form of an address and its length.
pub open spec fn spec_socket_addr(addr: SocketAddr) -> (SockAddrRepr, u32) {
    match addr {
        SocketAddr::V4 { ip, port } => (
            SockAddrRepr::In { family: AF_INET as u16, port: port_bytes(port), addr: ip },
            SOCKADDR_IN_LEN,
        ),
        SocketAddr::V6 { ip, port, flowinfo, scope_id } => (
            SockAddrRepr::In6 {
                family: AF_INET6 as u16,
                port: port_bytes(port),
                flowinfo,
                addr: ip,
                scope_id,
            },
            SOCKADDR_IN6_LEN,
        ),
    }
}

fn network_port(port: u16) -> (b: [u8; 2])
    ensures
        b == port_bytes(port),
{
    [(port / 256) as u8, (port % 256) as u8]
}

/// Converts an address into the system's form, with the length of that form.
pub fn socket_addr(addr: &SocketAddr) -> (r: (SockAddrRepr, u32))
    ensures
        r == spec_socket_addr(*addr),
{
    match *addr {
        SocketAddr::V4 { ip, port } => (
            SockAddrRepr::In { family: 2u16, port: network_port(port), addr: ip },
            SOCKADDR_IN_LEN,
        ),
        SocketAddr::V6 { ip, port, flowinfo, scope_id } => (
            SockAddrRepr::In6 {
                family: 10u16,
                port: network_port(port),
                flowinfo,
                addr: ip,
                scope_id,
            },
            SOCKADDR_IN6_LEN,
        ),
    }
}

} // verus!
