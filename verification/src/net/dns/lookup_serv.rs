//! Service lookup in `/etc/services`: which port and protocol a service name stands for.
use vstd::prelude::*;

use crate::net::socket::Protocol;
use crate::net::utils::{
    bytes_eq, comment_free, fields, fields_of, is_sep, joined, lemma_joined_columns, lemma_sep_index,
    plain_column, parse_decimal, parse_decimal_exec, remove_comment,
    split, split_by, Sep,
};

verus! {

/// A port and the protocol it is served over.
#[derive(Clone, Copy, PartialEq, Eq, Structural, Debug)]
pub struct Service {
    pub port: u16,
    pub proto: Protocol,
}

/// The protocol a services file names: `udp` or `tcp`.
pub open spec fn proto_named(s: Seq<u8>) -> Option<Protocol> {
    if s == seq![117u8, 100u8, 112u8] {
        Some(Protocol::UDP)
    } else if s == seq![116u8, 99u8, 112u8] {
        Some(Protocol::TCP)
    } else {
        None
    }
}

/// What a line of the services file offers to a query for `name` (any name when `None`)
/// over `protocol` (any when `None`). A line reads `service port/protocol aliases...`,
/// with `#` starting a comment; the service answers to its name and to its aliases.
pub open spec fn parse_service_line(
    name: Option<Seq<u8>>,
    protocol: Option<Protocol>,
    line: Seq<u8>,
) -> Option<Service> {
    let cols = fields(comment_free(line));
    if cols.len() < 2 {
        None
    } else {
        let info = split(cols[1], Sep::Byte(47u8));
        if info.len() < 2 {
            None
        } else {
            match proto_named(info[1]) {
                None => None,
                Some(proto) => {
                    if name is Some && !(cols[0] == name->0 || cols.skip(2).contains(name->0)) {
                        None
                    } else if protocol is Some && protocol->0 != proto {
                        None
                    } else {
                        match parse_decimal(info[0], 65535) {
                            Some(port) => Some(Service { port: port as u16, proto }),
                            None => None,
                        }
                    }
                },
            }
        }
    }
}

/// The word for a protocol in the services file: `tcp` or `udp`.
pub open spec fn proto_word(proto: Protocol) -> Seq<u8> {
    if proto == Protocol::TCP {
        seq![116u8, 99u8, 112u8]
    } else {
        seq![117u8, 100u8, 112u8]
    }
}

proof fn lemma_port_proto_split(port: Seq<u8>, proto: Protocol)
    requires
        proto == Protocol::TCP || proto == Protocol::UDP,
        forall|i: int| 0 <= i < port.len() ==> #[trigger] port[i] != 47u8,
    ensures
        split(port + seq![47u8] + proto_word(proto), Sep::Byte(47u8)) == seq![port, proto_word(proto)],
        proto_named(proto_word(proto)) == Some(proto),
{
    let w = proto_word(proto);
    let info = port + seq![47u8] + w;
    let k = port.len() as int;
    assert forall|i: int| 0 <= i < k implies !is_sep(Sep::Byte(47u8), #[trigger] info[i]) by {
        assert(info[i] == port[i]);
    }
    assert(info[k] == 47u8);
    lemma_sep_index(info, Sep::Byte(47u8), k);
    assert(info.take(k) =~= port);
    assert(info.skip(k + 1) =~= w);
    lemma_sep_index(w, Sep::Byte(47u8), 3);
    assert(split(w, Sep::Byte(47u8)) =~= seq![w]);
    assert(split(info, Sep::Byte(47u8)) =~= seq![port, w]);
}

proof fn lemma_named_by_alias(cols: Seq<Seq<u8>>, name: Seq<u8>)
    requires
        cols.len() >= 2,
    ensures
        cols.skip(2).contains(name) == exists|k: int| 2 <= k < cols.len() && cols[k] == name,
{
    if exists|j: int| 2 <= j < cols.len() && cols[j] == name {
        let j = choose|j: int| 2 <= j < cols.len() && cols[j] == name;
        assert(cols.skip(2)[j - 2] == cols[j]);
    }
    if cols.skip(2).contains(name) {
        let i = choose|i: int| 0 <= i < cols.skip(2).len() && cols.skip(2)[i] == name;
        assert(cols[i + 2] == name);
    }
}

/// A line `service port/proto alias...` answers a query for the service's name or for any
/// of its aliases, over its protocol or over any protocol, with its port and protocol; a
/// query for any other name gets nothing from it.
pub proof fn lemma_service_answers_to_every_alias(
    cols: Seq<Seq<u8>>,
    port: Seq<u8>,
    p: nat,
    proto: Protocol,
    name: Seq<u8>,
)
    requires
        cols.len() >= 2,
        forall|k: int| 0 <= k < cols.len() ==> (#[trigger] cols[k]).len() > 0 && plain_column(
            cols[k],
        ),
        proto == Protocol::TCP || proto == Protocol::UDP,
        forall|i: int| 0 <= i < port.len() ==> #[trigger] port[i] != 47u8,
        cols[1] == port + seq![47u8] + proto_word(proto),
        parse_decimal(port, 65535) == Some(p),
    ensures
        ({
            let line = joined(cols);
            let named = name == cols[0] || exists|k: int| 2 <= k < cols.len() && cols[k] == name;
            &&& named ==> parse_service_line(Some(name), None, line) == Some(
                Service { port: p as u16, proto },
            )
            &&& named ==> parse_service_line(Some(name), Some(proto), line) == Some(
                Service { port: p as u16, proto },
            )
            &&& !named ==> parse_service_line(Some(name), None, line) is None
        }),
{
    let line = joined(cols);
    lemma_joined_columns(cols);
    assert(fields(comment_free(line)) == cols);
    lemma_port_proto_split(port, proto);
    lemma_named_by_alias(cols, name);
}

/// The services that the lines offer, in order.
pub open spec fn services_found(
    name: Option<Seq<u8>>,
    protocol: Option<Protocol>,
    lines: Seq<Seq<u8>>,
) -> Seq<Service>
    decreases lines.len(),
{
    if lines.len() == 0 {
        Seq::empty()
    } else {
        let before = services_found(name, protocol, lines.drop_last());
        match parse_service_line(name, protocol, lines.last()) {
            Some(s) => before.push(s),
            None => before,
        }
    }
}

fn proto_of(s: &[u8]) -> (r: Option<Protocol>)
    ensures
        r == proto_named(s@),
{
    if s.len() == 3 && s[0] == 117u8 && s[1] == 100u8 && s[2] == 112u8 {
        proof {
            assert(s@ =~= seq![117u8, 100u8, 112u8]);
        }
        Some(Protocol::UDP)
    } else if s.len() == 3 && s[0] == 116u8 && s[1] == 99u8 && s[2] == 112u8 {
        proof {
            assert(s@ =~= seq![116u8, 99u8, 112u8]);
        }
        Some(Protocol::TCP)
    } else {
        proof {
            if s@ == seq![117u8, 100u8, 112u8] {
                assert(s@[0] == 117u8);
            }
            if s@ == seq![116u8, 99u8, 112u8] {
                assert(s@[0] == 116u8);
            }
        }
        None
    }
}

/// Reads one line of the services file for a query (see [`parse_service_line`]).
pub fn parse_line(name: Option<&[u8]>, protocol: Option<Protocol>, line: &[u8]) -> (r: Option<
    Service,
>)
    ensures
        r == parse_service_line(
            match name {
                Some(n) => Some(n@),
                None => None,
            },
            protocol,
            line@,
        ),
{
    let ghost spec_name = match name {
        Some(n) => Some(n@),
        None => None::<Seq<u8>>,
    };
    let line = remove_comment(line);
    let columns = fields_of(line);
    let ghost cols = columns@.map_values(|p: &[u8]| p@);
    if columns.len() < 2 {
        return None;
    }
    let serv = columns[0];
    let info = split_by(columns[1], Sep::Byte(47u8));
    if info.len() < 2 {
        return None;
    }
    let port = info[0];
    let proto = match proto_of(info[1]) {
        Some(p) => p,
        None => return None,
    };
    if let Some(n) = name {
        let mut found = bytes_eq(serv, n);
        let mut i: usize = 2;
        while i < columns.len() && !found
            invariant
                2 <= i <= columns@.len(),
                cols == columns@.map_values(|p: &[u8]| p@),
                found ==> cols[0] == n@ || cols.skip(2).contains(n@),
                !found ==> cols[0] != n@ && forall|j: int| 2 <= j < i ==> cols[j] != n@,
            decreases columns@.len() - i,
        {
            if bytes_eq(columns[i], n) {
                found = true;
                proof {
                    assert(cols.skip(2)[i - 2] == cols[i as int]);
                }
            }
            i = i + 1;
        }
        if !found {
            proof {
                assert forall|k: int| 0 <= k < cols.skip(2).len() implies cols.skip(2)[k] != n@ by {
                    assert(cols.skip(2)[k] == cols[k + 2]);
                }
            }
            return None;
        }
    }
    if let Some(p) = protocol {
        if p != proto {
            return None;
        }
    }
    match parse_decimal_exec(port, 65535) {
        Some(port) => Some(Service { port: port as u16, proto }),
        None => None,
    }
}

/// Fills `services` from the start with what the lines offer to the query, stopping once
/// it is full; returns how many were written.
pub fn lookup_serv(
    services: &mut Vec<Service>,
    name: Option<&[u8]>,
    proto: Option<Protocol>,
    lines: &Vec<Vec<u8>>,
) -> (len: usize)
    requires
        old(services).len() > 0 || services_found(
            match name {
                Some(n) => Some(n@),
                None => None,
            },
            proto,
            lines@.map_values(|l: Vec<u8>| l@),
        ).len() == 0,
    ensures
        ({
            let found = services_found(
                match name {
                    Some(n) => Some(n@),
                    None => None,
                },
                proto,
                lines@.map_values(|l: Vec<u8>| l@),
            );
            let n = if found.len() <= old(services).len() {
                found.len()
            } else {
                old(services).len() as nat
            };
            &&& len == n
            &&& final(services)@ == found.take(n as int) + old(services)@.skip(n as int)
        }),
{
    let ghost spec_name = match name {
        Some(n) => Some(n@),
        None => None::<Seq<u8>>,
    };
    let ghost ls = lines@.map_values(|l: Vec<u8>| l@);
    let ghost found = services_found(spec_name, proto, ls);
    let mut len: usize = 0;
    let mut i: usize = 0;
    loop
        invariant_except_break
            i <= lines@.len(),
            spec_name == match name {
                Some(n) => Some(n@),
                None => None::<Seq<u8>>,
            },
            ls == lines@.map_values(|l: Vec<u8>| l@),
            found == services_found(spec_name, proto, ls),
            old(services).len() > 0 || found.len() == 0,
            services@.len() == old(services)@.len(),
            len == services_found(spec_name, proto, ls.take(i as int)).len(),
            len < services@.len() || (len == 0 && services@.len() == 0),
            services@ == services_found(spec_name, proto, ls.take(i as int)) + old(
                services,
            )@.skip(len as int),
        ensures
            services@.len() == old(services)@.len(),
            len == if found.len() <= old(services).len() {
                found.len()
            } else {
                old(services).len() as nat
            },
            services@ == found.take(len as int) + old(services)@.skip(len as int),
        decreases lines@.len() - i,
    {
        if i >= lines.len() {
            proof {
                assert(ls.take(i as int) =~= ls);
                assert(found.take(len as int) =~= found);
            }
            break;
        }
        proof {
            assert(ls.take(i as int + 1).drop_last() =~= ls.take(i as int));
            assert(ls[i as int] == lines@[i as int]@);
            assert(ls.take(i as int + 1).last() == ls[i as int]);
        }
        let service = match parse_line(name, proto, lines[i].as_slice()) {
            Some(s) => s,
            None => {
                i = i + 1;
                continue;
            },
        };
        proof {
            lemma_found_prefix(spec_name, proto, ls, i as int + 1);
        }
        services.set(len, service);
        len = len + 1;
        proof {
            lemma_found_prefix(spec_name, proto, ls, i as int + 1);
            assert(services@ =~= services_found(spec_name, proto, ls.take(i as int + 1)) + old(
                services,
            )@.skip(len as int));
        }
        if len == services.len() {
            proof {
                lemma_found_prefix(spec_name, proto, ls, i as int + 1);
                assert(found.take(len as int) =~= services_found(spec_name, proto, ls.take(i as int + 1)));
            }
            break;
        }
        i = i + 1;
    }
    len
}

/// The services of a prefix of the lines are a prefix of those of all the lines.
proof fn lemma_found_prefix(
    name: Option<Seq<u8>>,
    protocol: Option<Protocol>,
    lines: Seq<Seq<u8>>,
    i: int,
)
    requires
        0 <= i <= lines.len(),
    ensures
        services_found(name, protocol, lines.take(i)).len() <= services_found(
            name,
            protocol,
            lines,
        ).len(),
        services_found(name, protocol, lines).take(
            services_found(name, protocol, lines.take(i)).len() as int,
        ) == services_found(name, protocol, lines.take(i)),
    decreases lines.len() - i,
{
    if i < lines.len() {
        lemma_found_prefix(name, protocol, lines, i + 1);
        assert(lines.take(i + 1).drop_last() =~= lines.take(i));
        let a = services_found(name, protocol, lines.take(i));
        let b = services_found(name, protocol, lines.take(i + 1));
        let all = services_found(name, protocol, lines);
        assert(all.take(a.len() as int) =~= b.take(a.len() as int));
    } else {
        assert(lines.take(i) =~= lines);
        assert(services_found(name, protocol, lines).take(
            services_found(name, protocol, lines).len() as int,
        ) =~= services_found(name, protocol, lines));
    }
}

} // verus!
