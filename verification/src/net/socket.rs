//! The protocols a socket can use.
use vstd::prelude::*;

verus! {

/// The protocol of a socket.
#[derive(Clone, Copy, PartialEq, Eq, Structural, Debug, Default)]
pub enum Protocol {
    #[default]
    IP,
    TCP,
    UDP,
    MPTCP,
    ICMP,
    ICMPV6,
}

} // verus!
