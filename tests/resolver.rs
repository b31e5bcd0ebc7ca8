use vnt_dns::addr::{ExchangeError, ResolveError, SockAddr};
use vnt_dns::resolver::{
    classify, merge_families, parse_port, split_host_port, txt_addresses, HostResolver, ResolveAction, Target,
};

fn server(n: u32) -> SockAddr {
    SockAddr::V4 { ip: n, port: 53 }
}

#[test]
fn literal_address_is_taken_as_is() {
    let a = SockAddr::V6 { ip: 1, port: 443, flowinfo: 0, scope_id: 0 };
    assert!(matches!(classify("[::1]:443", Some(a), &vec![]), Ok(Target::Literal(x)) if x == a));
}

#[test]
fn no_name_servers() {
    assert!(matches!(classify("example.com:80", None, &vec![]), Err(ResolveError::NoNameServers)));
    assert!(matches!(classify("txt:example.com", None, &vec![]), Err(ResolveError::NoNameServers)));
}

#[test]
fn malformed_name_server() {
    let r = classify("example.com:80", None, &vec![Some(server(1)), None]);
    assert!(matches!(r, Err(ResolveError::Format)));
}

#[test]
fn txt_prefix_in_any_case() {
    match classify("TxT:vnt.example", None, &vec![Some(server(1)), Some(server(2))]) {
        Ok(Target::Txt { name, server: s }) => {
            assert_eq!(name, "vnt.example");
            assert_eq!(s, server(1));
        }
        other => panic!("{:?}", other),
    }
}

#[test]
fn host_and_port() {
    match classify("a.example:8080", None, &vec![Some(server(1))]) {
        Ok(Target::HostPort { host, port, servers }) => {
            assert_eq!(host, "a.example");
            assert_eq!(port, 8080);
            assert_eq!(servers, vec![server(1)]);
        }
        other => panic!("{:?}", other),
    }
}

#[test]
fn malformed_host_port() {
    let s = vec![Some(server(1))];
    assert!(matches!(classify("example.com", None, &s), Err(ResolveError::Format)));
    assert!(matches!(classify("example.com:65536", None, &s), Err(ResolveError::Format)));
    assert!(matches!(classify("example.com:", None, &s), Err(ResolveError::Format)));
    assert!(matches!(classify("example.com:x1", None, &s), Err(ResolveError::Format)));
}

#[test]
fn split_at_last_colon() {
    assert_eq!(split_host_port("a:b:53"), Some(("a:b".to_string(), 53)));
    assert_eq!(split_host_port("nocolon"), None);
}

#[test]
fn port_numbers() {
    assert_eq!(parse_port("53"), Some(53));
    assert_eq!(parse_port("+53"), Some(53));
    assert_eq!(parse_port("0065535"), Some(65535));
    assert_eq!(parse_port("65536"), None);
    assert_eq!(parse_port("+"), None);
    assert_eq!(parse_port(""), None);
    assert_eq!(parse_port("-1"), None);
    assert_eq!(parse_port("5 3"), None);
}

#[test]
fn merged_ipv6_first() {
    let r = merge_families(&Ok(vec![7]), &Ok(vec![9]), 80);
    assert_eq!(
        r,
        vec![SockAddr::V6 { ip: 9, port: 80, flowinfo: 0, scope_id: 0 }, SockAddr::V4 { ip: 7, port: 80 }]
    );
}

#[test]
fn first_server_with_an_address_wins() {
    let mut r = HostResolver::new("host".to_string(), 80, vec![server(1), server(2)]);
    assert!(matches!(r.begin(), ResolveAction::Query(s) if s == server(1)));
    let act = r.record(Ok(vec![0x01020304]), Err(ExchangeError::Transport));
    match act {
        ResolveAction::Done(v) => assert_eq!(v, vec![SockAddr::V4 { ip: 0x01020304, port: 80 }]),
        other => panic!("{:?}", other),
    }
    assert_eq!(r.next, 0);
}

#[test]
fn empty_success_moves_on() {
    let mut r = HostResolver::new("host".to_string(), 80, vec![server(1), server(2)]);
    let act = r.record(Ok(vec![]), Err(ExchangeError::Protocol));
    assert!(matches!(act, ResolveAction::Query(s) if s == server(2)));
    let act = r.record(Ok(vec![5]), Ok(vec![]));
    assert!(matches!(act, ResolveAction::Done(v) if v == vec![SockAddr::V4 { ip: 5, port: 80 }]));
}

#[test]
fn every_server_fails() {
    let mut r = HostResolver::new("host".to_string(), 80, vec![server(1), server(2)]);
    let act = r.record(Err(ExchangeError::Transport), Err(ExchangeError::Protocol));
    assert!(matches!(act, ResolveAction::Query(_)));
    let act = r.record(Err(ExchangeError::Protocol), Ok(vec![]));
    assert!(matches!(act, ResolveAction::Stop));
    match r.failure() {
        ResolveError::Exhausted(e) => assert_eq!(
            e,
            vec![ExchangeError::Transport, ExchangeError::Protocol, ExchangeError::Protocol]
        ),
        other => panic!("{:?}", other),
    }
}

#[test]
fn resolver_without_servers_stops() {
    let r = HostResolver::new("host".to_string(), 80, vec![]);
    assert!(matches!(r.begin(), ResolveAction::Stop));
    assert!(matches!(r.failure(), ResolveError::NoNameServers));
}

#[test]
fn txt_addresses_all_or_nothing() {
    let a = SockAddr::V4 { ip: 1, port: 2 };
    let b = SockAddr::V4 { ip: 3, port: 4 };
    assert_eq!(txt_addresses(&vec![Some(a), Some(b)]), Ok(vec![a, b]));
    assert_eq!(txt_addresses(&vec![Some(a), None]), Err(ExchangeError::Protocol));
    assert_eq!(txt_addresses(&vec![]), Err(ExchangeError::Protocol));
}
