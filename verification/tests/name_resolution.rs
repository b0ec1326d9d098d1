use dns_protocol::{Flags, Message, Question, ResourceRecord, ResourceType};
use osiris::error::{DnsErrorKind, ErrorKind, IoError};
use osiris::net::dns::exchange::{check_tcp_query, UdpExchange, UdpOutcome, TOO_LARGE_FOR_TCP};
use osiris::net::dns::from_hosts;
use osiris::net::dns::lookup_name::name_from_null;
use osiris::net::dns::lookup_serv::{lookup_serv, parse_line, Service};
use osiris::net::dns::query::{
    new_query, parse_answers, prepare_query, udp_reply, QueryType, UdpReply,
};
use osiris::net::dns::exchange::{gather_answers, next_query_type};
use osiris::net::sockaddr::{socket_addr, SockAddrRepr, SocketAddr};
use osiris::net::dns::resolv::ResolvConf;
use osiris::net::dns::search::{search_candidates, NAME_ENDS_WITH_DOT};
use osiris::net::getaddrinfo::{AF_INET, AF_INET6, AF_UNSPEC, AI_PASSIVE};
use osiris::net::ip::{from_bytes, IpAddr};
use osiris::net::socket::Protocol;
use osiris::net::tcp_stream::{write_all_begin, write_all_step, WriteAll, WRITE_ZERO};
use osiris::net::to_socket_addr::{
    last_error_or_invalid_input, split_host_port, EXPECTED_HOST_PORT, INVALID_PORT,
};
use osiris::net::utils::{
    bytes_eq, fields_of, invalid_input, is_utf8, is_whitespace, parse_decimal_exec, remove_comment,
    split_by, strip_prefix, Sep, COULD_NOT_RESOLVE,
};

fn lines(text: &str) -> Vec<Vec<u8>> {
    text.split('\n').map(|l| l.as_bytes().to_vec()).collect()
}

const SERVICES: &str = "# Network services, Internet style\n\
ssh\t\t22/tcp\t\t\t\t# SSH Remote Login Protocol\n\
domain\t\t53/udp\n\
postgresql\t5432/tcp\tpostgres\t# PostgreSQL Database\n";

#[test]
fn lookup_services() {
    let services = &mut vec![
        Service {
            port: 0,
            proto: Protocol::TCP,
        };
        1
    ];
    let table = lines(SERVICES);
    // test alias
    lookup_serv(services, Some("postgresql".as_bytes()), None, &table);
    assert_eq!(services[0].port, 5432);
    assert_eq!(services[0].proto, Protocol::TCP);
    // test alias
    let len = lookup_serv(services, Some("postgres".as_bytes()), None, &table);
    assert_eq!(len, 1);
}

#[test]
fn services_stop_when_the_table_is_full() {
    let unused = Service { port: 1, proto: Protocol::IP };
    let services = &mut vec![unused; 3];
    let len = lookup_serv(services, None, None, &lines(SERVICES));
    assert_eq!(len, 3);
    assert_eq!(services[0], Service { port: 22, proto: Protocol::TCP });
    assert_eq!(services[1], Service { port: 53, proto: Protocol::UDP });
    assert_eq!(services[2], Service { port: 5432, proto: Protocol::TCP });
    let small = &mut vec![unused; 1];
    assert_eq!(lookup_serv(small, None, Some(Protocol::UDP), &lines(SERVICES)), 1);
    assert_eq!(small[0], Service { port: 53, proto: Protocol::UDP });
    let none = &mut vec![unused; 2];
    assert_eq!(lookup_serv(none, Some(&b"http"[..]), None, &lines(SERVICES)), 0);
    assert_eq!(none[0], unused);
}

#[test]
fn service_lines() {
    assert_eq!(
        parse_line(Some(&b"ssh"[..]), Some(Protocol::TCP), b"ssh 22/tcp"),
        Some(Service { port: 22, proto: Protocol::TCP })
    );
    assert_eq!(parse_line(Some(&b"ssh"[..]), Some(Protocol::UDP), b"ssh 22/tcp"), None);
    assert_eq!(parse_line(None, None, b"ssh 22/sctp"), None);
    assert_eq!(parse_line(None, None, b"ssh 70000/tcp"), None);
    assert_eq!(parse_line(None, None, b"# ssh 22/tcp"), None);
    assert_eq!(parse_line(Some(&b"www"[..]), None, b"http 80/tcp www"), Some(Service { port: 80, proto: Protocol::TCP }));
}

#[test]
fn hosts_file_lookup() {
    let hosts = lines("# comment\n127.0.0.1\tlocalhost\n::1 localhost ip6-localhost\n10.0.0.2 db db.local # the database");
    assert_eq!(from_hosts(b"localhost", &hosts), Some(b"127.0.0.1".to_vec()));
    assert_eq!(from_hosts(b"ip6-localhost", &hosts), Some(b"::1".to_vec()));
    assert_eq!(from_hosts(b"db.local", &hosts), Some(b"10.0.0.2".to_vec()));
    assert_eq!(from_hosts(b"database", &hosts), None);
    // the address column itself is not a name
    assert_eq!(from_hosts(b"10.0.0.2", &hosts), None);
}

#[test]
fn resolver_configuration() {
    let mut conf: ResolvConf = Default::default();
    assert_eq!((conf.ndots, conf.timeout, conf.attempts), (1, 5, 2));
    conf.load_from_text(
        b"# generated\nnameserver 10.0.0.1\nnameserver 10.0.0.2 # backup\nsearch example.com\noptions ndots:3\noptions timeout:9\noptions attempts:4\noptions ndots:999\nbogus line",
    );
    assert_eq!(conf.name_servers, vec![b"10.0.0.1".to_vec(), b"10.0.0.2".to_vec()]);
    assert_eq!(conf.search, Some(b"example.com".to_vec()));
    assert_eq!((conf.ndots, conf.timeout, conf.attempts), (3, 9, 4));
}

#[test]
fn search_tries_domains_then_the_name() {
    let domains = vec![b"a.org".to_vec(), b"b.net".to_vec()];
    // too few dots: the search domains first, then the name
    assert_eq!(
        search_candidates(b"host", 1, &domains),
        Ok(vec![b"host.a.org".to_vec(), b"host.b.net".to_vec(), b"host".to_vec()])
    );
    // enough dots: the name is global and only looked up as it is
    assert_eq!(search_candidates(b"www.x", 1, &domains), Ok(vec![b"www.x".to_vec()]));
    assert_eq!(
        search_candidates(b"www.example.com", 1, &vec![b"corp.example".to_vec()]),
        Ok(vec![b"www.example.com".to_vec()])
    );
    assert_eq!(
        search_candidates(b"www.x", 3, &domains),
        Ok(vec![b"www.x.a.org".to_vec(), b"www.x.b.net".to_vec(), b"www.x".to_vec()])
    );
    // a trailing dot makes the name global and is dropped
    assert_eq!(search_candidates(b"host.", 5, &domains), Ok(vec![b"host".to_vec()]));
    assert_eq!(
        search_candidates(b"host..", 1, &domains),
        Err(IoError::Simple { kind: ErrorKind::InvalidInput, message: NAME_ENDS_WITH_DOT })
    );
}

fn reply_bytes(id: u16, truncated: bool, answers: &[&[u8]]) -> Vec<u8> {
    let mut flags = Flags::new();
    flags.set_truncated(truncated);
    let mut questions = [Question::new("example.com", ResourceType::A, 1)];
    let mut records: Vec<ResourceRecord> = answers
        .iter()
        .map(|d| ResourceRecord::new("example.com", ResourceType::A, 1, 60, *d))
        .collect();
    let message = Message::new(id, flags, &mut questions, &mut records, &mut [], &mut []);
    let mut buf = vec![0; message.space_needed()];
    let len = message.write(&mut buf).unwrap();
    buf.truncate(len);
    buf
}

#[test]
fn udp_replies() {
    let v6 = [0u8, 1, 2, 3, 4, 5, 6, 7, 8, 9, 10, 11, 12, 13, 14, 15];
    let bytes = reply_bytes(7, false, &[&[93, 184, 216, 34], &[1, 2, 3], &v6]);
    assert_eq!(
        udp_reply(7, &bytes),
        Ok(UdpReply::Addresses(vec![IpAddr::V4([93, 184, 216, 34]), IpAddr::V6(v6)]))
    );
    assert_eq!(udp_reply(8, &bytes), Ok(UdpReply::WrongId));
    assert_eq!(udp_reply(7, &reply_bytes(7, true, &[])), Ok(UdpReply::Truncated));
    assert!(matches!(udp_reply(7, &bytes[..5]), Err(IoError::Dns(_))));
    // sixteen answers fit; a seventeenth does not
    let four: &[u8] = &[1, 2, 3, 4];
    assert!(matches!(udp_reply(7, &reply_bytes(7, false, &[four; 16])), Ok(UdpReply::Addresses(a)) if a.len() == 16));
    assert!(matches!(udp_reply(7, &reply_bytes(7, false, &[four; 17])), Err(IoError::Dns(_))));
}

#[test]
fn udp_exchange_steps() {
    let mut x = UdpExchange::new(7, 2);
    assert!(x.next_attempt());
    assert_eq!(x.on_reply(&reply_bytes(9, false, &[])), Ok(UdpOutcome::Retry));
    assert!(x.next_attempt());
    assert_eq!(x.on_reply(&reply_bytes(7, true, &[])), Ok(UdpOutcome::UseTcp));
    assert_eq!(
        x.on_reply(&reply_bytes(7, false, &[&[10, 0, 0, 1]])),
        Ok(UdpOutcome::Found(vec![IpAddr::V4([10, 0, 0, 1])]))
    );
    assert!(!x.next_attempt());
    assert_eq!(x.attempts_left, 0);
    assert_eq!(check_tcp_query(65535), Ok(()));
    assert_eq!(
        check_tcp_query(65536),
        Err(IoError::Simple { kind: ErrorKind::Other, message: TOO_LARGE_FOR_TCP })
    );
}

#[test]
fn ipv6_is_asked_after_an_empty_ipv4_answer() {
    assert_eq!(next_query_type(QueryType::A, 0), Some(QueryType::AAAA));
    assert_eq!(next_query_type(QueryType::A, 2), None);
    assert_eq!(next_query_type(QueryType::AAAA, 0), None);
}

#[test]
fn queries_are_written_with_their_id() {
    let q = prepare_query(0x1234, "example.com", QueryType::A).unwrap();
    assert_eq!(q.id, 0x1234);
    assert_eq!(&q.bytes[..2], &[0x12, 0x34]);
    assert!(q.udp);
    assert_eq!(q.bytes.len(), 12 + 13 + 4);
    // recursion desired, no other flag
    assert_eq!(&q.bytes[2..4], &[0x01, 0x00]);
    // the question's class is the Internet
    assert_eq!(&q.bytes[q.bytes.len() - 2..], &[0x00, 0x01]);
    let fresh = new_query("example.com", QueryType::AAAA).unwrap();
    assert_eq!(&fresh.bytes[4..], &prepare_query(0, "example.com", QueryType::AAAA).unwrap().bytes[4..]);
    assert!(new_query(&"b".repeat(70), QueryType::A).is_err());
    let long = "a".repeat(70);
    assert_eq!(
        prepare_query(1, &long, QueryType::AAAA).err(),
        Some(IoError::Dns(DnsErrorKind::NameTooLong))
    );
}

#[test]
fn answers_become_addresses() {
    let mut addrs = vec![IpAddr::V4([1, 1, 1, 1])];
    parse_answers(&vec![vec![8, 8, 8, 8], vec![0; 5]], &mut addrs);
    assert_eq!(addrs, vec![IpAddr::V4([1, 1, 1, 1]), IpAddr::V4([8, 8, 8, 8])]);
    assert_eq!(from_bytes(&[0; 16]), Some(IpAddr::V6([0; 16])));
    assert_eq!(from_bytes(&[0; 3]), None);
}

#[test]
fn addresses_without_a_name() {
    let loop6 = IpAddr::V6([0, 0, 0, 0, 0, 0, 0, 0, 0, 0, 0, 0, 0, 0, 0, 1]);
    assert_eq!(name_from_null(true, AF_UNSPEC, 0), vec![]);
    assert_eq!(name_from_null(false, AF_UNSPEC, 0), vec![IpAddr::V4([127, 0, 0, 1]), loop6]);
    assert_eq!(name_from_null(false, AF_INET, AI_PASSIVE), vec![IpAddr::V4([0; 4])]);
    assert_eq!(name_from_null(false, AF_INET6, AI_PASSIVE), vec![IpAddr::V6([0; 16])]);
}

#[test]
fn host_and_port() {
    assert_eq!(split_host_port(b"localhost:8080"), Ok((&b"localhost"[..], 8080)));
    assert_eq!(split_host_port(b"a:+1"), Ok((&b"a"[..], 1)));
    assert_eq!(
        split_host_port(b"localhost"),
        Err(IoError::Simple { kind: ErrorKind::InvalidInput, message: EXPECTED_HOST_PORT })
    );
    assert_eq!(
        split_host_port(b"h:65536"),
        Err(IoError::Simple { kind: ErrorKind::InvalidInput, message: INVALID_PORT })
    );
    assert_eq!(
        split_host_port(b"h:"),
        Err(IoError::Simple { kind: ErrorKind::InvalidInput, message: INVALID_PORT })
    );
    assert_eq!(last_error_or_invalid_input(Some(IoError::Os(111))), IoError::Os(111));
    assert_eq!(last_error_or_invalid_input(None), invalid_input());
    assert_eq!(
        invalid_input(),
        IoError::Simple { kind: ErrorKind::InvalidInput, message: COULD_NOT_RESOLVE }
    );
}

#[test]
fn write_all_progress() {
    assert_eq!(write_all_begin(0), WriteAll::Done);
    assert_eq!(write_all_begin(10), WriteAll::Continue(0));
    assert_eq!(write_all_step(0, 10, Ok(4)), WriteAll::Continue(4));
    assert_eq!(write_all_step(4, 10, Ok(6)), WriteAll::Done);
    assert_eq!(
        write_all_step(4, 10, Ok(0)),
        WriteAll::Fail(IoError::Simple { kind: ErrorKind::WriteZero, message: WRITE_ZERO })
    );
    assert_eq!(write_all_step(4, 10, Err(IoError::Os(32))), WriteAll::Fail(IoError::Os(32)));
}

#[test]
fn text_helpers() {
    assert!(is_whitespace(&b' ') && is_whitespace(&b'\t') && !is_whitespace(&b'x'));
    assert_eq!(remove_comment(b"a b # c"), b"a b ");
    assert_eq!(remove_comment(b"plain"), b"plain");
    let cols: Vec<&[u8]> = fields_of(b"  a\tbb  c ");
    assert_eq!(cols, vec![&b"a"[..], &b"bb"[..], &b"c"[..]]);
    let parts: Vec<&[u8]> = split_by(b"a//b", Sep::Byte(b'/'));
    assert_eq!(parts, vec![&b"a"[..], &b""[..], &b"b"[..]]);
    assert_eq!(strip_prefix(b"ndots:3", b"ndots:"), Some(&b"3"[..]));
    assert_eq!(strip_prefix(b"nd", b"ndots:"), None);
    assert!(bytes_eq(b"abc", b"abc") && !bytes_eq(b"abc", b"abd"));
    assert!(is_utf8("héllo".as_bytes()) && !is_utf8(&[0xff, 0xfe]));
    assert_eq!(parse_decimal_exec(b"255", 255), Some(255));
    assert_eq!(parse_decimal_exec(b"256", 255), None);
    assert_eq!(parse_decimal_exec(b"", 255), None);
    assert_eq!(parse_decimal_exec(b"1a", 255), None);
}

const HOSTS: &str = "127.0.0.1\tlocalhost\n127.0.1.1\tworkstation\n\n# The following lines are desirable for IPv6 capable hosts\n::1     localhost ip6-localhost ip6-loopback\nff02::1 ip6-allnodes\n";

#[test]
fn unix_lookup_from_host_test() {
    let addr = from_hosts(b"localhost", &lines(HOSTS)).unwrap();
    assert_eq!(std::str::from_utf8(&addr).unwrap(), "127.0.0.1");
}

#[test]
fn mod_lookup_from_host_test() {
    let addr = from_hosts("localhost".as_bytes(), &lines(HOSTS));
    assert_eq!(addr, Some(b"127.0.0.1".to_vec()));
}

const RESOLV_CONF: &str = "# This is /run/systemd/resolve/stub-resolv.conf managed by man:systemd-resolved(8).\nnameserver 127.0.0.53\noptions edns0 trust-ad\nsearch .\n";

#[test]
fn unix_resolve_conf_load_test() {
    let mut conf: ResolvConf = Default::default();
    conf.load_from_text(RESOLV_CONF.as_bytes());
    assert_eq!(conf.name_servers, vec![b"127.0.0.53".to_vec()]);
    assert_eq!(conf.search, Some(b".".to_vec()));
    assert_eq!((conf.ndots, conf.timeout, conf.attempts), (1, 5, 2));
}

#[test]
fn mod_resolve_conf_load_test() {
    let mut conf: ResolvConf = Default::default();
    conf.load_from_text(b"");
    assert!(conf.name_servers.is_empty());
    assert_eq!(conf.search, None);
}

#[test]
fn system_socket_addresses() {
    let (v4, len4) = socket_addr(&SocketAddr::V4 { ip: [127, 0, 0, 1], port: 8080 });
    assert_eq!(len4, 16);
    assert_eq!(v4, SockAddrRepr::In { family: 2, port: [0x1f, 0x90], addr: [127, 0, 0, 1] });
    let ip6 = [0, 0, 0, 0, 0, 0, 0, 0, 0, 0, 0, 0, 0, 0, 0, 1];
    let (v6, len6) =
        socket_addr(&SocketAddr::V6 { ip: ip6, port: 53, flowinfo: 7, scope_id: 3 });
    assert_eq!(len6, 28);
    assert_eq!(
        v6,
        SockAddrRepr::In6 { family: 10, port: [0, 53], flowinfo: 7, addr: ip6, scope_id: 3 }
    );
}

#[test]
fn name_server_answers_are_gathered_in_order() {
    let a = IpAddr::V4([1, 1, 1, 1]);
    let b = IpAddr::V4([2, 2, 2, 2]);
    assert_eq!(gather_answers(&vec![]), Ok(vec![]));
    assert_eq!(gather_answers(&vec![Ok(vec![a]), Ok(vec![]), Ok(vec![b, a])]), Ok(vec![a, b, a]));
    assert_eq!(
        gather_answers(&vec![Ok(vec![a]), Err(IoError::Os(111)), Err(IoError::Os(110))]),
        Err(IoError::Os(111))
    );
}
