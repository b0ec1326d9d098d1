//! DNS queries: building the message for a name, and reading what a name server
//! answers. The wire format is `dns_protocol`'s.
use vstd::prelude::*;

use crate::error::DnsErrorKind;
use crate::net::ip::{address_of, from_bytes, IpAddr};

verus! {

#[verifier::external_type_specification]
#[verifier::external_body]
pub struct ExDnsError(dns_protocol::Error);

/// The record type a query asks for.
#[derive(Clone, Copy, PartialEq, Eq, Structural, Debug)]
pub enum QueryType {
    /// An IPv4 address.
    A,
    /// An IPv6 address.
    AAAA,
}

/// What a name server's reply holds, as far as a lookup reads it.
pub struct Reply {
    pub id: u16,
    pub truncated: bool,
    /// The data of each answer record.
    pub answers: Vec<Vec<u8>>,
}

/// The bytes of a query (`dns_protocol::Message::write`) with the given id, the recursion
/// flag set or not and no other flag, holding one question for the name with the given
/// record type and class; `None` when the message cannot be written.
pub uninterp spec fn dns_query_bytes(
    id: u16,
    recursive: bool,
    name: Seq<char>,
    qtype: QueryType,
    class: u16,
) -> Option<Seq<u8>>;

/// What `dns_protocol::Message::read` finds in the bytes, with room for `question_room`
/// questions and `record_room` records in each section: the id, the truncation flag and
/// the data of the answers; `None` when it cannot read them.
pub uninterp spec fn dns_reply(bytes: Seq<u8>, question_room: u16, record_room: u16) -> Option<
    (u16, bool, Seq<Seq<u8>>),
>;

/// `dns_protocol::Message::write`, on a message holding the one question, into a buffer of
/// `space_needed` bytes: trusted to yield the bytes written, which depend on the
/// arguments alone. The id only goes into the header, so whether the message can be
/// written does not depend on it: writing fails only on a name the crate cannot encode.
/// The buffer is sized as the crate asks, so it does not panic.
#[verifier::external_body]
fn write_query(id: u16, recursive: bool, name: &str, qtype: QueryType, class: u16) -> (r: Result<
    Vec<u8>,
    dns_protocol::Error,
>)
    ensures
        match r {
            Ok(bytes) => dns_query_bytes(id, recursive, name@, qtype, class) == Some(bytes@),
            Err(_) => forall|other: u16|
                #[trigger] dns_query_bytes(other, recursive, name@, qtype, class) is None,
        },
{
    let ty = match qtype {
        QueryType::A => dns_protocol::ResourceType::A,
        QueryType::AAAA => dns_protocol::ResourceType::AAAA,
    };
    let mut questions = [dns_protocol::Question::new(name, ty, class)];
    let mut flags = dns_protocol::Flags::new();
    flags.set_recursive(recursive);
    let message = dns_protocol::Message::new(id, flags, &mut questions, &mut [], &mut [], &mut []);
    let mut buf = vec![0; message.space_needed()];
    let len = message.write(&mut buf)?;
    buf.truncate(len);
    Ok(buf)
}

/// `dns_protocol::Message::read`, with `question_room` questions and `record_room` records
/// of room in each section: trusted to yield the id, the truncation flag and the answers'
/// data of the message, which depend on the bytes and the room alone.
#[verifier::external_body]
fn read_reply(bytes: &[u8], question_room: u16, record_room: u16) -> (r: Result<
    Reply,
    dns_protocol::Error,
>)
    ensures
        match r {
            Ok(reply) => dns_reply(bytes@, question_room, record_room) == Some(
                (reply.id, reply.truncated, reply.answers@.map_values(|a: Vec<u8>| a@)),
            ),
            Err(_) => dns_reply(bytes@, question_room, record_room) is None,
        },
{
    let mut q = vec![dns_protocol::Question::default(); question_room as usize];
    let mut answers = vec![dns_protocol::ResourceRecord::default(); record_room as usize];
    let mut authority = vec![dns_protocol::ResourceRecord::default(); record_room as usize];
    let mut additional = vec![dns_protocol::ResourceRecord::default(); record_room as usize];
    let message = dns_protocol::Message::read(bytes, &mut q, &mut answers, &mut authority, &mut additional)?;
    let answers = message.answers().iter().map(|a| a.data().to_vec()).collect();
    Ok(Reply { id: message.id(), truncated: message.flags().truncated(), answers })
}

/// The kind of a `dns_protocol::Error`, one variant for each of its variants.
#[verifier::external_body]
fn dns_error_kind(e: &dns_protocol::Error) -> DnsErrorKind {
    match e {
        dns_protocol::Error::NotEnoughWriteSpace { .. } => DnsErrorKind::NotEnoughWriteSpace,
        dns_protocol::Error::NotEnoughReadBytes { .. } => DnsErrorKind::NotEnoughReadBytes,
        dns_protocol::Error::Parse { .. } => DnsErrorKind::Parse,
        dns_protocol::Error::NameTooLong(_) => DnsErrorKind::NameTooLong,
        dns_protocol::Error::InvalidUtf8(_) => DnsErrorKind::InvalidUtf8,
        dns_protocol::Error::InvalidCode(_) => DnsErrorKind::InvalidCode,
        dns_protocol::Error::TooManyUrlSegments(_) => DnsErrorKind::TooManyUrlSegments,
        _ => DnsErrorKind::Unknown,
    }
}

/// `fastrand::u16(..)`: a random query id; nothing is known of its value.
#[verifier::external_body]
fn random_id() -> u16 {
    fastrand::u16(..)
}

/// The largest query sent over UDP.
pub const UDP_QUERY_LIMIT: usize = 512;

/// The class of the questions asked: the Internet.
pub const CLASS_IN: u16 = 1;

/// The room for questions when a reply is read.
pub const QUESTION_ROOM: u16 = 1;

/// The room for records in each section when a reply is read; a reply with more records in
/// a section cannot be read.
pub const RECORD_ROOM: u16 = 16;

/// A query ready to send: its id, its bytes, and whether it is small enough for UDP.
pub struct Query {
    pub id: u16,
    pub bytes: Vec<u8>,
    pub udp: bool,
}

/// Builds the recursive query with the given id for `name`, asking for Internet records of
/// type `qtype`.
pub fn prepare_query(id: u16, name: &str, qtype: QueryType) -> (r: Result<Query, crate::error::IoError>)
    ensures
        match dns_query_bytes(id, true, name@, qtype, CLASS_IN) {
            Some(bytes) => r is Ok && r->Ok_0.id == id && r->Ok_0.bytes@ == bytes && r->Ok_0.udp
                == (bytes.len() <= UDP_QUERY_LIMIT),
            None => r is Err && r->Err_0 is Dns,
        },
        r is Err ==> forall|other: u16|
            #[trigger] dns_query_bytes(other, true, name@, qtype, CLASS_IN) is None,
{
    match write_query(id, true, name, qtype, CLASS_IN) {
        Ok(bytes) => {
            let udp = bytes.len() <= UDP_QUERY_LIMIT;
            Ok(Query { id, bytes, udp })
        },
        Err(e) => Err(crate::error::IoError::Dns(dns_error_kind(&e))),
    }
}

/// Builds a query for `name` under a fresh random id. It fails exactly when the query
/// cannot be written under any id.
pub fn new_query(name: &str, qtype: QueryType) -> (r: Result<Query, crate::error::IoError>)
    ensures
        match r {
            Ok(q) => dns_query_bytes(q.id, true, name@, qtype, CLASS_IN) == Some(q.bytes@) && q.udp
                == (q.bytes@.len() <= UDP_QUERY_LIMIT),
            Err(e) => e is Dns && forall|id: u16|
                #[trigger] dns_query_bytes(id, true, name@, qtype, CLASS_IN) is None,
        },
{
    let id = random_id();
    prepare_query(id, name, qtype)
}

/// What a reply over UDP tells the lookup.
#[derive(PartialEq, Eq, Debug)]
pub enum UdpReply {
    /// The reply answers another query: wait for the next one.
    WrongId,
    /// The reply did not fit: ask again over TCP.
    Truncated,
    /// The addresses the reply gives.
    Addresses(Vec<IpAddr>),
}

/// The addresses among the answers' data: four bytes make an IPv4 address, sixteen an
/// IPv6 one, other lengths none.
pub open spec fn answer_addresses(answers: Seq<Seq<u8>>) -> Seq<IpAddr>
    decreases answers.len(),
{
    if answers.len() == 0 {
        Seq::empty()
    } else {
        let before = answer_addresses(answers.drop_last());
        match address_of(answers.last()) {
            Some(a) => before.push(a),
            None => before,
        }
    }
}

/// Appends the addresses among the answers' data to `addrs`.
pub fn parse_answers(answers: &Vec<Vec<u8>>, addrs: &mut Vec<IpAddr>)
    ensures
        final(addrs)@ == old(addrs)@ + answer_addresses(answers@.map_values(|a: Vec<u8>| a@)),
{
    let ghost ans = answers@.map_values(|a: Vec<u8>| a@);
    let mut i: usize = 0;
    while i < answers.len()
        invariant
            i <= answers@.len(),
            ans == answers@.map_values(|a: Vec<u8>| a@),
            addrs@ == old(addrs)@ + answer_addresses(ans.take(i as int)),
        decreases answers@.len() - i,
    {
        proof {
            assert(ans.take(i as int + 1).drop_last() =~= ans.take(i as int));
            assert(ans[i as int] == answers@[i as int]@);
        }
        if let Some(a) = from_bytes(answers[i].as_slice()) {
            addrs.push(a);
        }
        i = i + 1;
        proof {
            assert(addrs@ =~= old(addrs)@ + answer_addresses(ans.take(i as int)));
        }
    }
    proof {
        assert(ans.take(i as int) =~= ans);
    }
}

/// Reads a UDP reply to the query with id `id`.
pub fn udp_reply(id: u16, reply: &[u8]) -> (r: Result<UdpReply, crate::error::IoError>)
    ensures
        match dns_reply(reply@, QUESTION_ROOM, RECORD_ROOM) {
            None => r is Err && r->Err_0 is Dns,
            Some((rid, truncated, answers)) => if rid != id {
                r == Ok::<UdpReply, crate::error::IoError>(UdpReply::WrongId)
            } else if truncated {
                r == Ok::<UdpReply, crate::error::IoError>(UdpReply::Truncated)
            } else {
                r matches Ok(UdpReply::Addresses(a)) && a@ == answer_addresses(answers)
            },
        },
{
    let message = match read_reply(reply, QUESTION_ROOM, RECORD_ROOM) {
        Ok(m) => m,
        Err(e) => return Err(crate::error::IoError::Dns(dns_error_kind(&e))),
    };
    if message.id != id {
        return Ok(UdpReply::WrongId);
    }
    if message.truncated {
        return Ok(UdpReply::Truncated);
    }
    let mut addrs: Vec<IpAddr> = Vec::new();
    parse_answers(&message.answers, &mut addrs);
    proof {
        assert(addrs@ =~= answer_addresses(message.answers@.map_values(|a: Vec<u8>| a@)));
    }
    Ok(UdpReply::Addresses(addrs))
}

} // verus!
