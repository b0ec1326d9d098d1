//! The addresses that stand for "no host name".
use vstd::prelude::*;

use crate::net::getaddrinfo::{AF_INET, AF_INET6, AI_PASSIVE};
use crate::net::ip::IpAddr;

verus! {

/// The addresses for a lookup without a host name: none when there is a name; the
/// unspecified addresses when the caller will listen (`AI_PASSIVE`), the loopback
/// addresses otherwise; IPv4 unless only IPv6 is asked for, then IPv6 unless only IPv4 is.
pub open spec fn spec_name_from_null(has_name: bool, family: i32, flags: i32) -> Seq<IpAddr> {
    if has_name {
        seq![]
    } else {
        let passive = flags & AI_PASSIVE != 0;
        let v4: Seq<IpAddr> = if family == AF_INET6 {
            seq![]
        } else if passive {
            seq![IpAddr::V4([0u8, 0u8, 0u8, 0u8])]
        } else {
            seq![IpAddr::V4([127u8, 0u8, 0u8, 1u8])]
        };
        let v6: Seq<IpAddr> = if family == AF_INET {
            seq![]
        } else if passive {
            seq![IpAddr::V6([0u8, 0u8, 0u8, 0u8, 0u8, 0u8, 0u8, 0u8, 0u8, 0u8, 0u8, 0u8, 0u8, 0u8, 0u8, 0u8])]
        } else {
            seq![IpAddr::V6([0u8, 0u8, 0u8, 0u8, 0u8, 0u8, 0u8, 0u8, 0u8, 0u8, 0u8, 0u8, 0u8, 0u8, 0u8, 1u8])]
        };
        v4 + v6
    }
}

/// With a name there is no address. Without one, there is an IPv4 address unless only IPv6
/// (family `10`) is asked for, and then an IPv6 one unless only IPv4 (family `2`) is;
/// each is the unspecified address (all zero) when `AI_PASSIVE` (`1`) is set, and the
/// loopback address (`127.0.0.1`, `::1`) otherwise.
pub proof fn lemma_addresses_without_a_name(family: i32, flags: i32)
    ensures
        spec_name_from_null(true, family, flags).len() == 0,
        ({
            let r = spec_name_from_null(false, family, flags);
            let passive = flags & 1 != 0;
            let v4 = if passive {
                IpAddr::V4([0u8, 0u8, 0u8, 0u8])
            } else {
                IpAddr::V4([127u8, 0u8, 0u8, 1u8])
            };
            let v6 = if passive {
                IpAddr::V6([0u8, 0u8, 0u8, 0u8, 0u8, 0u8, 0u8, 0u8, 0u8, 0u8, 0u8, 0u8, 0u8, 0u8, 0u8, 0u8])
            } else {
                IpAddr::V6([0u8, 0u8, 0u8, 0u8, 0u8, 0u8, 0u8, 0u8, 0u8, 0u8, 0u8, 0u8, 0u8, 0u8, 0u8, 1u8])
            };
            &&& family == 10 ==> r == seq![v6]
            &&& family == 2 ==> r == seq![v4]
            &&& family != 2 && family != 10 ==> r == seq![v4, v6]
        }),
{
    assert(seq![IpAddr::V4([0u8, 0u8, 0u8, 0u8])] + seq![
        IpAddr::V6([0u8, 0u8, 0u8, 0u8, 0u8, 0u8, 0u8, 0u8, 0u8, 0u8, 0u8, 0u8, 0u8, 0u8, 0u8, 0u8]),
    ] =~= seq![
        IpAddr::V4([0u8, 0u8, 0u8, 0u8]),
        IpAddr::V6([0u8, 0u8, 0u8, 0u8, 0u8, 0u8, 0u8, 0u8, 0u8, 0u8, 0u8, 0u8, 0u8, 0u8, 0u8, 0u8]),
    ]);
    assert(seq![IpAddr::V4([127u8, 0u8, 0u8, 1u8])] + seq![
        IpAddr::V6([0u8, 0u8, 0u8, 0u8, 0u8, 0u8, 0u8, 0u8, 0u8, 0u8, 0u8, 0u8, 0u8, 0u8, 0u8, 1u8]),
    ] =~= seq![
        IpAddr::V4([127u8, 0u8, 0u8, 1u8]),
        IpAddr::V6([0u8, 0u8, 0u8, 0u8, 0u8, 0u8, 0u8, 0u8, 0u8, 0u8, 0u8, 0u8, 0u8, 0u8, 0u8, 1u8]),
    ]);
    assert(seq![IpAddr::V4([0u8, 0u8, 0u8, 0u8])] + Seq::<IpAddr>::empty() =~= seq![IpAddr::V4([0u8, 0u8, 0u8, 0u8])]);
    assert(seq![IpAddr::V4([127u8, 0u8, 0u8, 1u8])] + Seq::<IpAddr>::empty() =~= seq![IpAddr::V4([127u8, 0u8, 0u8, 1u8])]);
    assert(Seq::<IpAddr>::empty() + seq![IpAddr::V6([0u8, 0u8, 0u8, 0u8, 0u8, 0u8, 0u8, 0u8, 0u8, 0u8, 0u8, 0u8, 0u8, 0u8, 0u8, 0u8])] =~= seq![IpAddr::V6([0u8, 0u8, 0u8, 0u8, 0u8, 0u8, 0u8, 0u8, 0u8, 0u8, 0u8, 0u8, 0u8, 0u8, 0u8, 0u8])]);
    assert(Seq::<IpAddr>::empty() + seq![IpAddr::V6([0u8, 0u8, 0u8, 0u8, 0u8, 0u8, 0u8, 0u8, 0u8, 0u8, 0u8, 0u8, 0u8, 0u8, 0u8, 1u8])] =~= seq![IpAddr::V6([0u8, 0u8, 0u8, 0u8, 0u8, 0u8, 0u8, 0u8, 0u8, 0u8, 0u8, 0u8, 0u8, 0u8, 0u8, 1u8])]);
}

/// The addresses for a lookup without a host name.
pub fn name_from_null(has_name: bool, family: i32, flags: i32) -> (r: Vec<IpAddr>)
    ensures
        r@ == spec_name_from_null(has_name, family, flags),
        r@.len() <= 2,
{
    let mut r: Vec<IpAddr> = Vec::new();
    if has_name {
        proof {
            assert(r@ =~= spec_name_from_null(has_name, family, flags));
        }
        return r;
    }
    let passive = flags & AI_PASSIVE != 0;
    if family != AF_INET6 {
        if passive {
            r.push(IpAddr::V4([0u8, 0u8, 0u8, 0u8]));
        } else {
            r.push(IpAddr::V4([127u8, 0u8, 0u8, 1u8]));
        }
    }
    if family != AF_INET {
        if passive {
            r.push(IpAddr::V6([0u8, 0u8, 0u8, 0u8, 0u8, 0u8, 0u8, 0u8, 0u8, 0u8, 0u8, 0u8, 0u8, 0u8, 0u8, 0u8]));
        } else {
            r.push(
                IpAddr::V6([0u8, 0u8, 0u8, 0u8, 0u8, 0u8, 0u8, 0u8, 0u8, 0u8, 0u8, 0u8, 0u8, 0u8, 0u8, 1u8]),
            );
        }
    }
    proof {
        assert(r@ =~= spec_name_from_null(has_name, family, flags));
    }
    r
}

} // verus!
