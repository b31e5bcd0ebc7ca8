use vnt_dns::addr::ExchangeError;
use vnt_dns::codec::{a_dns, aaaa_dns, is_valid_query_name, parse_response, query_packet, txt_dns, Answer, RecordType};

fn header(flags: u16, answers: u16) -> Vec<u8> {
    let mut v = vec![0x00, 0x01];
    v.extend_from_slice(&flags.to_be_bytes());
    v.extend_from_slice(&[0x00, 0x01]);
    v.extend_from_slice(&answers.to_be_bytes());
    v.extend_from_slice(&[0x00, 0x00, 0x00, 0x00]);
    v
}

fn question(qtype: u16) -> Vec<u8> {
    let mut v = b"\x07example\x03com\x00".to_vec();
    v.extend_from_slice(&qtype.to_be_bytes());
    v.extend_from_slice(&[0x00, 0x01]);
    v
}

fn answer(rtype: u16, rdata: &[u8]) -> Vec<u8> {
    let mut v = vec![0xc0, 0x0c];
    v.extend_from_slice(&rtype.to_be_bytes());
    v.extend_from_slice(&[0x00, 0x01, 0x00, 0x00, 0x0e, 0x10]);
    v.extend_from_slice(&(rdata.len() as u16).to_be_bytes());
    v.extend_from_slice(rdata);
    v
}

fn reply(flags: u16, qtype: u16, answers: &[(u16, Vec<u8>)]) -> Vec<u8> {
    let mut v = header(flags, answers.len() as u16);
    v.extend(question(qtype));
    for (t, d) in answers {
        v.extend(answer(*t, d));
    }
    v
}

#[test]
fn query_for_a_record() {
    let q = query_packet("example.com", RecordType::A);
    let expected = b"\x00\x01\x01\x00\x00\x01\x00\x00\x00\x00\x00\x00\x07example\x03com\x00\x00\x01\x00\x01";
    assert_eq!(&q[..], &expected[..]);
}

#[test]
fn query_for_txt_and_aaaa_records() {
    let q = query_packet("a.b", RecordType::Txt);
    assert_eq!(&q[q.len() - 4..], &[0x00, 0x10, 0x00, 0x01]);
    let q = query_packet("a.b", RecordType::Aaaa);
    assert_eq!(&q[q.len() - 4..], &[0x00, 0x1c, 0x00, 0x01]);
}

#[test]
fn query_names_that_fit() {
    assert!(is_valid_query_name("example.com"));
    assert!(is_valid_query_name(""));
    assert!(is_valid_query_name(&"a".repeat(62)));
    assert!(!is_valid_query_name(&"a".repeat(63)));
    assert!(!is_valid_query_name("bücher.de"));
    let long = vec!["abcdefghi"; 50].join(".");
    assert!(!is_valid_query_name(&long));
}

#[test]
fn a_reply_gives_its_addresses() {
    let r = reply(0x8180, 1, &[(1, vec![1, 2, 3, 4]), (1, vec![10, 0, 0, 1])]);
    assert_eq!(a_dns(&r), Ok(vec![0x01020304, 0x0a000001]));
}

#[test]
fn aaaa_reply_gives_its_addresses() {
    let mut ip = vec![0u8; 16];
    ip[0] = 0x20;
    ip[1] = 0x01;
    ip[15] = 0x01;
    let r = reply(0x8180, 28, &[(28, ip)]);
    assert_eq!(aaaa_dns(&r), Ok(vec![0x2001_0000_0000_0000_0000_0000_0000_0001]));
}

#[test]
fn a_reply_skips_other_records() {
    let r = reply(0x8180, 1, &[(28, vec![0; 16]), (1, vec![1, 2, 3, 4])]);
    assert_eq!(a_dns(&r), Ok(vec![0x01020304]));
    assert_eq!(aaaa_dns(&r), Ok(vec![0]));
}

#[test]
fn failure_code_is_a_failed_exchange() {
    let r = reply(0x8183, 1, &[(1, vec![1, 2, 3, 4])]);
    assert_eq!(a_dns(&r), Err(ExchangeError::Protocol));
    assert_eq!(aaaa_dns(&r), Err(ExchangeError::Protocol));
    assert_eq!(txt_dns(&r), Err(ExchangeError::Protocol));
}

#[test]
fn empty_answer_is_a_failed_exchange() {
    let r = reply(0x8180, 1, &[]);
    assert_eq!(a_dns(&r), Err(ExchangeError::Protocol));
    assert_eq!(aaaa_dns(&r), Err(ExchangeError::Protocol));
    assert_eq!(txt_dns(&r), Err(ExchangeError::Protocol));
}

#[test]
fn garbage_is_a_failed_exchange() {
    assert_eq!(a_dns(&[1, 2, 3]), Err(ExchangeError::Protocol));
}

#[test]
fn txt_reply_gives_its_strings() {
    let r = reply(0x8180, 16, &[(16, b"\x0b1.2.3.4:567\x0a[::1]:8080".to_vec())]);
    assert_eq!(txt_dns(&r), Ok(vec![b"1.2.3.4:567".to_vec(), b"[::1]:8080".to_vec()]));
}

#[test]
fn txt_reply_without_txt_records_fails() {
    let r = reply(0x8180, 16, &[(1, vec![1, 2, 3, 4])]);
    assert_eq!(txt_dns(&r), Err(ExchangeError::Protocol));
}

#[test]
fn parsed_response_keeps_code_and_records() {
    let r = reply(0x8182, 1, &[(1, vec![1, 2, 3, 4])]);
    let p = parse_response(&r).unwrap();
    assert_eq!(p.rcode, 2);
    assert_eq!(p.answers.len(), 1);
    assert!(matches!(p.answers[0], Answer::A(0x01020304)));
}
