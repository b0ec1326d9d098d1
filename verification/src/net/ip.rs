//! Internet addresses as plain bytes.
use vstd::prelude::*;

verus! {

/// An IP address: four bytes for version 4, sixteen for version 6, in network order.
#[derive(Clone, Copy, PartialEq, Eq, Debug)]
pub enum IpAddr {
    V4([u8; 4]),
    V6([u8; 16]),
}

/// The address whose bytes are `data`, when it has the length of one.
pub open spec fn address_of(data: Seq<u8>) -> Option<IpAddr> {
    if data.len() == 4 {
        Some(IpAddr::V4([data[0], data[1], data[2], data[3]]))
    } else if data.len() == 16 {
        Some(
            IpAddr::V6(
                [
                    data[0],
                    data[1],
                    data[2],
                    data[3],
                    data[4],
                    data[5],
                    data[6],
                    data[7],
                    data[8],
                    data[9],
                    data[10],
                    data[11],
                    data[12],
                    data[13],
                    data[14],
                    data[15],
                ],
            ),
        )
    } else {
        None
    }
}

/// The address whose bytes are `data`, when it has the length of one.
pub fn from_bytes(data: &[u8]) -> (r: Option<IpAddr>)
    ensures
        r == address_of(data@),
{
    if data.len() == 4 {
        Some(IpAddr::V4([data[0], data[1], data[2], data[3]]))
    } else if data.len() == 16 {
        Some(
            IpAddr::V6(
                [
                    data[0],
                    data[1],
                    data[2],
                    data[3],
                    data[4],
                    data[5],
                    data[6],
                    data[7],
                    data[8],
                    data[9],
                    data[10],
                    data[11],
                    data[12],
                    data[13],
                    data[14],
                    data[15],
                ],
            ),
        )
    } else {
        None
    }
}

} // verus!
