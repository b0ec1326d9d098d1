//! Turning `host:port` text into what a lookup needs, and choosing the error when no
//! address of a lookup works.
use vstd::prelude::*;

use crate::error::{ErrorKind, IoError};
use crate::net::utils::{invalid_input, parse_decimal, parse_decimal_exec, sep_index, Sep};

verus! {

/// The message of the error for text without a `:`.
pub const EXPECTED_HOST_PORT: &'static str = "invalid socket address, expected `<host>:<port>` syntax.";

/// The message of the error for a port that is not a number in `0..=65535`.
pub const INVALID_PORT: &'static str = "invalid port value";

/// `host:port` split at the first `:`, with the port read as a decimal number.
pub open spec fn spec_split_host_port(s: Seq<u8>) -> Result<(Seq<u8>, u16), IoError> {
    let k = sep_index(s, Sep::Byte(58u8));
    if k >= s.len() {
        Err(IoError::Simple { kind: ErrorKind::InvalidInput, message: EXPECTED_HOST_PORT })
    } else {
        match parse_decimal(s.skip(k + 1), 65535) {
            Some(port) => Ok((s.take(k), port as u16)),
            None => Err(IoError::Simple { kind: ErrorKind::InvalidInput, message: INVALID_PORT }),
        }
    }
}

/// Text `host:port`, with no `:` in the host and a port that reads as a number up to
/// 65535, gives that host and port; text without any `:` is refused as not being
/// `host:port`.
pub proof fn lemma_host_port_round_trip(host: Seq<u8>, port: Seq<u8>, p: nat, text: Seq<u8>)
    requires
        forall|i: int| 0 <= i < host.len() ==> #[trigger] host[i] != 58u8,
        parse_decimal(port, 65535) == Some(p),
    ensures
        spec_split_host_port(host + seq![58u8] + port) == Ok::<(Seq<u8>, u16), IoError>(
            (host, p as u16),
        ),
        (forall|i: int| 0 <= i < text.len() ==> #[trigger] text[i] != 58u8) ==> spec_split_host_port(
            text,
        ) == Err::<(Seq<u8>, u16), IoError>(
            IoError::Simple { kind: ErrorKind::InvalidInput, message: EXPECTED_HOST_PORT },
        ),
{
    let s = host + seq![58u8] + port;
    let k = host.len() as int;
    assert forall|i: int| 0 <= i < k implies !crate::net::utils::is_sep(
        Sep::Byte(58u8),
        #[trigger] s[i],
    ) by {
        assert(s[i] == host[i]);
    }
    assert(s[k] == 58u8);
    crate::net::utils::lemma_sep_index(s, Sep::Byte(58u8), k);
    assert(s.take(k) =~= host);
    assert(s.skip(k + 1) =~= port);
    if forall|i: int| 0 <= i < text.len() ==> #[trigger] text[i] != 58u8 {
        assert forall|i: int| 0 <= i < text.len() implies !crate::net::utils::is_sep(
            Sep::Byte(58u8),
            #[trigger] text[i],
        ) by {}
        crate::net::utils::lemma_sep_index(text, Sep::Byte(58u8), text.len() as int);
    }
}

/// Splits `host:port` into the host and the port.
pub fn split_host_port(s: &[u8]) -> (r: Result<(&[u8], u16), IoError>)
    ensures
        match spec_split_host_port(s@) {
            Ok((host, port)) => r is Ok && r->Ok_0.0@ == host && r->Ok_0.1 == port,
            Err(e) => r == Err::<(&[u8], u16), IoError>(e),
        },
{
    let mut k: usize = 0;
    while k < s.len() && s[k] != 58u8
        invariant
            k <= s@.len(),
            forall|i: int| 0 <= i < k ==> !crate::net::utils::is_sep(Sep::Byte(58u8), #[trigger] s@[i]),
        decreases s@.len() - k,
    {
        k = k + 1;
    }
    proof {
        crate::net::utils::lemma_sep_index(s@, Sep::Byte(58u8), k as int);
    }
    if k >= s.len() {
        return Err(IoError::Simple { kind: ErrorKind::InvalidInput, message: EXPECTED_HOST_PORT });
    }
    let port = &s[k + 1..s.len()];
    proof {
        assert(port@ =~= s@.skip(k + 1));
    }
    match parse_decimal_exec(port, 65535) {
        Some(p) => {
            let host = &s[0..k];
            proof {
                assert(host@ =~= s@.take(k as int));
            }
            Ok((host, p as u16))
        },
        None => Err(IoError::Simple { kind: ErrorKind::InvalidInput, message: INVALID_PORT }),
    }
}

/// The error when every address failed: the last failure, or, when there was no address,
/// [`invalid_input`].
pub fn last_error_or_invalid_input(error: Option<IoError>) -> (e: IoError)
    ensures
        e == match error {
            Some(e) => e,
            None => IoError::Simple {
                kind: ErrorKind::InvalidInput,
                message: crate::net::utils::COULD_NOT_RESOLVE,
            },
        },
{
    match error {
        Some(e) => e,
        None => invalid_input(),
    }
}

} // verus!
