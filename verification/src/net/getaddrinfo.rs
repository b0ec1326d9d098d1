//! The flag checks of address resolution.
use vstd::prelude::*;

use crate::error::IoError;

verus! {

pub const AI_PASSIVE: i32 = 0x01;
pub const AI_CANONNAME: i32 = 0x02;
pub const AI_NUMERICHOST: i32 = 0x04;
pub const AI_V4MAPPED: i32 = 0x08;
pub const AI_ALL: i32 = 0x10;
pub const AI_ADDRCONFIG: i32 = 0x400;
pub const AI_NUMERICSERV: i32 = 0x400;

/// The flags a resolution request may carry.
pub const AI_MASK: i32 = AI_PASSIVE | AI_CANONNAME | AI_NUMERICHOST | AI_V4MAPPED | AI_ALL
    | AI_ADDRCONFIG | AI_NUMERICSERV;

/// Fails with the given error code.
pub fn error<T>(code: i32) -> (r: Result<T, IoError>)
    ensures
        r == Err::<T, IoError>(IoError::Os(code)),
{
    Err(IoError::from_raw_os_error(code))
}

/// Whether `flags` has any of the bits of `enabled`.
pub fn all(flags: i32, enabled: i32) -> (r: bool)
    ensures
        r == (flags & enabled != 0),
{
    (flags & enabled) != 0
}

/// Whether `flags` has a bit that no resolution flag uses.
pub fn bad_flags(flags: i32) -> (r: bool)
    ensures
        r == (flags & AI_MASK != flags),
{
    flags & AI_MASK != flags
}

/// The address families (Linux values).
pub const AF_UNSPEC: i32 = 0;
pub const AF_INET: i32 = 2;
pub const AF_INET6: i32 = 10;

/// The resolution error codes (Linux values).
pub const EAI_BADFLAGS: i32 = -1;
pub const EAI_NONAME: i32 = -2;
pub const EAI_FAMILY: i32 = -6;

/// What a resolution request asks for; all zero (any family, no flags) when no hint is given.
#[derive(PartialEq, Eq, Structural, Debug, Clone, Copy)]
pub struct Hints {
    pub family: i32,
    pub flags: i32,
    pub protocol: i32,
    pub socktype: i32,
}

/// The request a lookup goes on with, or the error code that ends it: a name or a service
/// is needed; the hint's flags must be known ones and its family one of `AF_INET`,
/// `AF_INET6`, `AF_UNSPEC`.
pub open spec fn spec_check_request(has_host: bool, has_service: bool, hint: Option<Hints>) -> Result<
    Hints,
    i32,
> {
    if !has_host && !has_service {
        Err(EAI_NONAME)
    } else {
        match hint {
            None => Ok(Hints { family: AF_UNSPEC, flags: 0, protocol: 0, socktype: 0 }),
            Some(h) => if h.flags & AI_MASK != h.flags {
                Err(EAI_BADFLAGS)
            } else if h.family != AF_INET && h.family != AF_INET6 && h.family != AF_UNSPEC {
                Err(EAI_FAMILY)
            } else {
                Ok(h)
            },
        }
    }
}

/// A request with a name or a service is accepted, unchanged, exactly when its hint's
/// family is IPv4 (`2`), IPv6 (`10`) or unspecified (`0`) and its flags are known ones; a
/// family outside these three, with known flags, is refused with `EAI_FAMILY` (`-6`), and
/// unknown flags with `EAI_BADFLAGS` (`-1`). Without a hint, any family and no flag are
/// asked for.
pub proof fn lemma_request_acceptance(has_host: bool, has_service: bool, h: Hints)
    requires
        has_host || has_service,
    ensures
        (h.family == 0 || h.family == 2 || h.family == 10) && h.flags & AI_MASK == h.flags
            ==> spec_check_request(has_host, has_service, Some(h)) == Ok::<Hints, i32>(h),
        !(h.family == 0 || h.family == 2 || h.family == 10) && h.flags & AI_MASK == h.flags
            ==> spec_check_request(has_host, has_service, Some(h)) == Err::<Hints, i32>(-6i32),
        h.flags & AI_MASK != h.flags ==> spec_check_request(has_host, has_service, Some(h))
            == Err::<Hints, i32>(-1i32),
        spec_check_request(has_host, has_service, None) == Ok::<Hints, i32>(
            Hints { family: 0, flags: 0, protocol: 0, socktype: 0 },
        ),
{
}

/// A request with neither a name nor a service is refused with `EAI_NONAME` (`-2`),
/// whatever its hint.
pub proof fn lemma_request_needs_a_name(hint: Option<Hints>)
    ensures
        spec_check_request(false, false, hint) == Err::<Hints, i32>(-2i32),
{
}

/// Checks a resolution request before any lookup.
pub fn check_request(has_host: bool, has_service: bool, hint: Option<Hints>) -> (r: Result<
    Hints,
    IoError,
>)
    ensures
        match spec_check_request(has_host, has_service, hint) {
            Ok(h) => r == Ok::<Hints, IoError>(h),
            Err(code) => r == Err::<Hints, IoError>(IoError::Os(code)),
        },
{
    if !has_host && !has_service {
        return error(EAI_NONAME);
    }
    match hint {
        None => Ok(Hints { family: AF_UNSPEC, flags: 0, protocol: 0, socktype: 0 }),
        Some(h) => {
            if bad_flags(h.flags) {
                return error(EAI_BADFLAGS);
            }
            if h.family != AF_INET && h.family != AF_INET6 && h.family != AF_UNSPEC {
                return error(EAI_FAMILY);
            }
            Ok(h)
        },
    }
}

/// The families whose loopback route is probed when `AI_ADDRCONFIG` is set: IPv4 unless
/// only IPv6 is asked for, then IPv6 unless only IPv4 is asked for; none without the flag.
pub open spec fn spec_probe_families(family: i32, flags: i32) -> Seq<i32> {
    if flags & AI_ADDRCONFIG == 0 {
        seq![]
    } else {
        let v4: Seq<i32> = if family == AF_INET6 { seq![] } else { seq![AF_INET] };
        let v6: Seq<i32> = if family == AF_INET { seq![] } else { seq![AF_INET6] };
        v4 + v6
    }
}

/// Without `AI_ADDRCONFIG` (`0x400`) nothing is probed. With it, IPv4 (`2`) is probed
/// unless only IPv6 (`10`) is asked for, and then IPv6 unless only IPv4 is.
pub proof fn lemma_probed_families(family: i32, flags: i32)
    ensures
        flags & 0x400 == 0 ==> spec_probe_families(family, flags).len() == 0,
        flags & 0x400 != 0 ==> spec_probe_families(family, flags) == (if family == 10 {
            seq![10i32]
        } else if family == 2 {
            seq![2i32]
        } else {
            seq![2i32, 10i32]
        }),
{
    assert(seq![2i32] + seq![10i32] =~= seq![2i32, 10i32]);
    assert(Seq::<i32>::empty() + seq![10i32] =~= seq![10i32]);
    assert(seq![2i32] + Seq::<i32>::empty() =~= seq![2i32]);
}

/// The families to probe for a request of `family` with `flags`, in order.
pub fn probe_families(family: i32, flags: i32) -> (r: Vec<i32>)
    ensures
        r@ == spec_probe_families(family, flags),
{
    let mut r: Vec<i32> = Vec::new();
    if flags & AI_ADDRCONFIG == 0 {
        proof {
            assert(r@ =~= spec_probe_families(family, flags));
        }
        return r;
    }
    let tf: [i32; 2] = [AF_INET, AF_INET6];
    let mut i: usize = 0;
    while i < 2
        invariant
            i <= 2,
            tf@ == seq![AF_INET, AF_INET6],
            r@ == (if i == 0 {
                seq![]
            } else if family == AF_INET6 {
                seq![]
            } else {
                seq![AF_INET]
            }) + (if i < 2 || family == AF_INET {
                Seq::<i32>::empty()
            } else {
                seq![AF_INET6]
            }),
        decreases 2 - i,
    {
        if family != tf[1 - i] {
            r.push(tf[i]);
        }
        i = i + 1;
    }
    proof {
        assert(r@ =~= spec_probe_families(family, flags));
    }
    r
}

} // verus!
