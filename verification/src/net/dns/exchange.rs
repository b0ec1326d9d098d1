//! The exchange with one name server over UDP: how many replies are awaited and what each
//! one decides.
use vstd::prelude::*;

use crate::error::IoError;
use crate::net::dns::query::{
    answer_addresses, dns_reply, udp_reply, QueryType, UdpReply, QUESTION_ROOM, RECORD_ROOM,
};
use crate::net::ip::IpAddr;

verus! {

/// What a lookup does after a reply over UDP.
#[derive(PartialEq, Eq, Debug)]
pub enum UdpOutcome {
    /// The reply answers another query: send the query again, if attempts remain.
    Retry,
    /// The answer does not fit in UDP: ask over TCP.
    UseTcp,
    /// The addresses the name server gave.
    Found(Vec<IpAddr>),
}

/// A query over UDP with its id and the attempts it has left; each attempt sends the query
/// and waits once for a reply.
pub struct UdpExchange {
    pub id: u16,
    pub attempts_left: u8,
}

impl UdpExchange {
    /// An exchange for the query `id` with `attempts` attempts.
    pub fn new(id: u16, attempts: u8) -> (x: Self)
        ensures
            x.id == id,
            x.attempts_left == attempts,
    {
        UdpExchange { id, attempts_left: attempts }
    }

    /// Starts an attempt when one is left, and says whether it did. When none is left the
    /// lookup goes on over TCP.
    pub fn next_attempt(&mut self) -> (started: bool)
        ensures
            started == (old(self).attempts_left > 0),
            final(self).id == old(self).id,
            final(self).attempts_left == if started {
                old(self).attempts_left - 1
            } else {
                old(self).attempts_left as int
            },
    {
        if self.attempts_left > 0 {
            self.attempts_left = self.attempts_left - 1;
            true
        } else {
            false
        }
    }

    /// What a reply decides: a reply that cannot be read fails the lookup, one to another
    /// query is skipped, a truncated one sends the lookup to TCP, and otherwise its
    /// addresses are the answer.
    pub fn on_reply(&self, reply: &[u8]) -> (r: Result<UdpOutcome, IoError>)
        ensures
            match dns_reply(reply@, QUESTION_ROOM, RECORD_ROOM) {
                None => r is Err && r->Err_0 is Dns,
                Some((rid, truncated, answers)) => if rid != self.id {
                    r == Ok::<UdpOutcome, IoError>(UdpOutcome::Retry)
                } else if truncated {
                    r == Ok::<UdpOutcome, IoError>(UdpOutcome::UseTcp)
                } else {
                    r matches Ok(UdpOutcome::Found(a)) && a@ == answer_addresses(answers)
                },
            },
    {
        match udp_reply(self.id, reply) {
            Err(e) => Err(e),
            Ok(UdpReply::WrongId) => Ok(UdpOutcome::Retry),
            Ok(UdpReply::Truncated) => Ok(UdpOutcome::UseTcp),
            Ok(UdpReply::Addresses(a)) => Ok(UdpOutcome::Found(a)),
        }
    }
}

/// The record type to ask for next after a query of type `asked` found `found`
/// addresses: IPv6 ones when IPv4 ones were asked for and none was found; none after that.
pub fn next_query_type(asked: QueryType, found: usize) -> (next: Option<QueryType>)
    ensures
        next == (if asked == QueryType::A && found == 0 {
            Some(QueryType::AAAA)
        } else {
            None
        }),
{
    match asked {
        QueryType::A => if found == 0 {
            Some(QueryType::AAAA)
        } else {
            None
        },
        QueryType::AAAA => None,
    }
}

/// The answer of a lookup from the answers of its name servers, in the order of the
/// servers: the first error, if any; else all their addresses, one server after another.
pub open spec fn gathered(results: Seq<Result<Seq<IpAddr>, IoError>>) -> Result<
    Seq<IpAddr>,
    IoError,
>
    decreases results.len(),
{
    if results.len() == 0 {
        Ok(Seq::empty())
    } else {
        match gathered(results.drop_last()) {
            Err(e) => Err(e),
            Ok(before) => match results.last() {
                Err(e) => Err(e),
                Ok(addrs) => Ok(before + addrs),
            },
        }
    }
}

/// The answers as plain values.
pub open spec fn answers_view(results: Seq<Result<Vec<IpAddr>, IoError>>) -> Seq<
    Result<Seq<IpAddr>, IoError>,
> {
    results.map_values(
        |r: Result<Vec<IpAddr>, IoError>|
            match r {
                Ok(v) => Ok(v@),
                Err(e) => Err(e),
            },
    )
}

proof fn lemma_gathered_error_sticks(results: Seq<Result<Seq<IpAddr>, IoError>>, k: int, n: int)
    requires
        0 <= k <= n <= results.len(),
        gathered(results.take(k)) is Err,
    ensures
        gathered(results.take(n)) == gathered(results.take(k)),
    decreases n - k,
{
    if k < n {
        lemma_gathered_error_sticks(results, k, n - 1);
        assert(results.take(n).drop_last() =~= results.take(n - 1));
    }
}

/// Gathers the answers of the name servers of a lookup (see [`gathered`]).
pub fn gather_answers(results: &Vec<Result<Vec<IpAddr>, IoError>>) -> (r: Result<
    Vec<IpAddr>,
    IoError,
>)
    ensures
        match gathered(answers_view(results@)) {
            Ok(addrs) => r is Ok && r->Ok_0@ == addrs,
            Err(e) => r == Err::<Vec<IpAddr>, IoError>(e),
        },
{
    let ghost rs = answers_view(results@);
    let mut out: Vec<IpAddr> = Vec::new();
    let mut i: usize = 0;
    while i < results.len()
        invariant
            i <= results@.len(),
            rs == answers_view(results@),
            gathered(rs.take(i as int)) == Ok::<Seq<IpAddr>, IoError>(out@),
        decreases results@.len() - i,
    {
        proof {
            assert(rs.take(i as int + 1).drop_last() =~= rs.take(i as int));
        }
        match &results[i] {
            Err(e) => {
                proof {
                    lemma_gathered_error_sticks(rs, i as int + 1, rs.len() as int);
                    assert(rs.take(rs.len() as int) =~= rs);
                }
                return Err(*e);
            },
            Ok(addrs) => {
                let ghost before = out@;
                let mut j: usize = 0;
                while j < addrs.len()
                    invariant
                        j <= addrs@.len(),
                        out@ == before + addrs@.take(j as int),
                    decreases addrs@.len() - j,
                {
                    out.push(addrs[j]);
                    j = j + 1;
                    proof {
                        assert(out@ =~= before + addrs@.take(j as int));
                    }
                }
                proof {
                    assert(addrs@.take(j as int) =~= addrs@);
                }
            },
        }
        i = i + 1;
    }
    proof {
        assert(rs.take(i as int) =~= rs);
    }
    Ok(out)
}

/// The largest query sent over TCP, whose length goes in two bytes.
pub const TCP_QUERY_LIMIT: usize = 65535;

/// The message of the error for a query too large for TCP.
pub const TOO_LARGE_FOR_TCP: &'static str = "query too large for TCP";

/// Checks that a query of `len` bytes can go over TCP.
pub fn check_tcp_query(len: usize) -> (r: Result<(), IoError>)
    ensures
        len <= TCP_QUERY_LIMIT ==> r is Ok,
        len > TCP_QUERY_LIMIT ==> r == Err::<(), IoError>(
            IoError::Simple { kind: crate::error::ErrorKind::Other, message: TOO_LARGE_FOR_TCP },
        ),
{
    if len > TCP_QUERY_LIMIT {
        Err(IoError::Simple { kind: crate::error::ErrorKind::Other, message: TOO_LARGE_FOR_TCP })
    } else {
        Ok(())
    }
}

} // verus!
