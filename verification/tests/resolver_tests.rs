//! The resolver session: correlation by transaction id, malformed input,
//! server failures, and close semantics.

use futures_dns::errors::Error;
use futures_dns::message::{IpAddress, RECORD_TYPE_A, RECORD_TYPE_AAAA};
use futures_dns::nslookup::{
    combine_lookup_ip, filter_ipv4, filter_ipv6, finish_lookup_addrs, finish_lookup_txt,
    parse_ip_addrs, parse_txt, DnsLookupNetwork,
};

use hickory_proto::op::{Message, MessageType, ResponseCode};
use hickory_proto::rr::rdata::{A, AAAA, PTR, TXT};
use hickory_proto::rr::{Name, RData, Record};

fn response(id: u16, rcode: u16, answers: Vec<Record>) -> Vec<u8> {
    let code: ResponseCode = rcode.into();
    let mut m = Message::new();
    m.set_id(id).set_message_type(MessageType::Response).set_response_code(code);
    for answer in answers {
        m.add_answer(answer);
    }
    m.to_vec().unwrap()
}

fn a_record(name: &str, addr: u32) -> Record {
    Record::from_rdata(Name::from_utf8(name).unwrap(), 300, RData::A(A(addr.into())))
}

fn aaaa_record(name: &str, addr: u128) -> Record {
    Record::from_rdata(Name::from_utf8(name).unwrap(), 300, RData::AAAA(AAAA(addr.into())))
}

fn txt_record(name: &str, parts: &[&str]) -> Record {
    let parts: Vec<String> = parts.iter().map(|s| s.to_string()).collect();
    Record::from_rdata(Name::from_utf8(name).unwrap(), 300, RData::TXT(TXT::new(parts)))
}

#[test]
fn test_recv_too_short() {
    let mut session = DnsLookupNetwork::new();
    // A pending response must survive the bad datagram.
    let good = response(9, 0, vec![a_record("example.com", 0x01020304)]);
    session.recv(good.clone()).unwrap();

    assert_eq!(session.recv(vec![0u8; 11]), Err(Error::TooShort));

    assert_eq!(session.take_response(9), Some(good));
}

#[test]
fn test_recv_routes_by_id_out_of_order() {
    let mut session = DnsLookupNetwork::new();
    let first = response(1, 0, vec![a_record("one.test", 0x0A000001)]);
    let second = response(2, 0, vec![a_record("two.test", 0x0A000002)]);

    // The second query's response arrives before the first's.
    assert_eq!(session.recv(second.clone()), Ok(2));
    assert_eq!(session.recv(first.clone()), Ok(1));

    assert_eq!(session.take_response(2), Some(second));
    assert_eq!(session.take_response(1), Some(first));
    assert_eq!(session.take_response(1), None);
}

#[test]
fn test_recv_overwrites_same_id() {
    let mut session = DnsLookupNetwork::new();
    let old = response(5, 0, vec![]);
    let new = response(5, 0, vec![a_record("late.test", 0x7F000001)]);
    session.recv(old).unwrap();
    session.recv(new.clone()).unwrap();
    assert_eq!(session.take_response(5), Some(new));
}

#[test]
fn test_recv_after_close() {
    let mut session = DnsLookupNetwork::new();
    session.close();
    assert_eq!(session.recv(vec![0u8; 64]), Err(Error::InvalidState));
    session.close();
    assert_eq!(session.recv(vec![0u8; 64]), Err(Error::InvalidState));
}

#[test]
fn test_start_lookup_queues_query_under_its_id() {
    let mut session = DnsLookupNetwork::new();
    let id = session.start_lookup("example.com", &vec![RECORD_TYPE_A]).unwrap();
    assert_eq!(id, 0);
    let id2 = session.start_lookup("example.com", &vec![RECORD_TYPE_AAAA]).unwrap();
    assert_eq!(id2, 1);

    // FIFO: the first query leaves first, its header carries its id.
    let buf = session.send().unwrap().unwrap();
    assert!(buf.len() >= 12);
    assert_eq!([buf[0], buf[1]], id.to_be_bytes());

    let parsed = Message::from_vec(&buf).unwrap();
    assert_eq!(parsed.id(), id);
    assert!(parsed.recursion_desired());
    assert_eq!(parsed.queries().len(), 1);
    assert_eq!(parsed.queries()[0].query_type(), hickory_proto::rr::RecordType::A);
    assert_eq!(parsed.queries()[0].name(), &Name::from_utf8("example.com").unwrap());

    let buf2 = session.send().unwrap().unwrap();
    assert_eq!([buf2[0], buf2[1]], id2.to_be_bytes());
    assert_eq!(session.send(), Ok(None));
}

#[test]
fn test_start_lookup_bad_name() {
    let mut session = DnsLookupNetwork::new();
    let long_label = "a".repeat(80);
    assert_eq!(session.start_lookup(&long_label, &vec![RECORD_TYPE_A]), Err(Error::Malformed));
    // The drawn id is consumed either way.
    assert_eq!(session.start_lookup("ok.test", &vec![RECORD_TYPE_A]), Ok(1));
}

#[test]
fn test_send_drains_then_fails_after_close() {
    let mut session = DnsLookupNetwork::new();
    session.start_lookup("example.com", &vec![RECORD_TYPE_A]).unwrap();
    session.close();
    // The queued packet is still handed out after close ...
    assert!(session.send().unwrap().is_some());
    // ... and only a drained, closed session reports the invalid state.
    assert_eq!(session.send(), Err(Error::InvalidState));
}

#[test]
fn test_send_empty_open_session_waits() {
    let mut session = DnsLookupNetwork::new();
    assert_eq!(session.send(), Ok(None));
    assert!(!session.is_closed());
}

#[test]
fn test_finish_lookup_addrs_orders_and_classifies() {
    let buf = response(
        3,
        0,
        vec![
            a_record("mix.test", 0x01020304),
            txt_record("mix.test", &["ignored"]),
            aaaa_record("mix.test", 0x1),
        ],
    );
    let addrs = finish_lookup_addrs(3, Some(buf)).unwrap();
    assert_eq!(addrs, vec![IpAddress::V4(0x01020304), IpAddress::V6(0x1)]);
}

#[test]
fn test_finish_lookup_server_error() {
    let mut session = DnsLookupNetwork::new();
    let other = response(8, 0, vec![a_record("kept.test", 0x0A0A0A0A)]);
    session.recv(other.clone()).unwrap();

    // NXDomain is response code 3 on the wire.
    let failed = response(4, 3, vec![]);
    assert_eq!(finish_lookup_addrs(4, Some(failed)), Err(Error::ServerError(3)));

    // The concurrently pending transaction was not thrown away.
    assert_eq!(session.take_response(8), Some(other));
}

#[test]
fn test_finish_lookup_wrong_message_type() {
    let mut m = Message::new();
    m.set_id(6).set_message_type(MessageType::Query);
    let buf = m.to_vec().unwrap();
    assert_eq!(finish_lookup_addrs(6, Some(buf)), Err(Error::InvalidType));
}

#[test]
fn test_finish_lookup_canceled() {
    assert_eq!(finish_lookup_addrs(7, None), Err(Error::LookupCanceled(7)));
    assert_eq!(finish_lookup_txt(9, None), Err(Error::LookupCanceled(9)));
}

#[test]
fn test_finish_lookup_malformed() {
    assert_eq!(finish_lookup_addrs(1, Some(vec![0xFFu8; 16])), Err(Error::Malformed));
}

#[test]
fn test_finish_lookup_txt_joins_parts() {
    let buf = response(
        2,
        0,
        vec![
            txt_record("text.test", &["hello ", "world"]),
            a_record("text.test", 0x01010101),
            txt_record("text.test", &["second"]),
        ],
    );
    let texts = finish_lookup_txt(2, Some(buf)).unwrap();
    assert_eq!(texts, vec!["hello world".to_string(), "second".to_string()]);
}

#[test]
fn test_parse_txt_rejects_invalid_utf8() {
    let record = Record::from_rdata(
        Name::from_utf8("bad.test").unwrap(),
        300,
        RData::TXT(TXT::from_bytes(vec![&[0xFFu8, 0xFEu8][..]])),
    );
    let buf = response(2, 0, vec![record]);
    assert_eq!(finish_lookup_txt(2, Some(buf)), Err(Error::Utf8));
}

#[test]
fn test_address_filters_and_union_order() {
    let addrs = vec![IpAddress::V4(1), IpAddress::V6(2), IpAddress::V4(3)];
    assert_eq!(filter_ipv4(&addrs), vec![1u32, 3u32]);
    assert_eq!(filter_ipv6(&addrs), vec![2u128]);

    // A combined lookup lists the v6 results before the v4 results.
    let v6 = vec![IpAddress::V6(2)];
    let v4 = vec![IpAddress::V4(1), IpAddress::V4(3)];
    assert_eq!(
        combine_lookup_ip(v6, v4),
        vec![IpAddress::V6(2), IpAddress::V4(1), IpAddress::V4(3)]
    );
}

#[test]
fn test_parse_answers_skip_other_records() {
    let buf = response(
        1,
        0,
        vec![Record::from_rdata(
            Name::from_utf8("ptr.test").unwrap(),
            300,
            RData::PTR(PTR(Name::from_utf8("target.test").unwrap())),
        )],
    );
    let addrs = finish_lookup_addrs(1, Some(buf.clone())).unwrap();
    assert_eq!(addrs, vec![]);
    let texts = finish_lookup_txt(1, Some(buf)).unwrap();
    assert_eq!(texts, Vec::<String>::new());
}

#[test]
fn test_parse_helpers_direct() {
    let buf = response(1, 0, vec![a_record("x.test", 0x01000002)]);
    let parsed = finish_lookup_addrs(1, Some(buf)).unwrap();
    let refiltered = parse_ip_addrs(
        &Vec::new(),
    );
    assert_eq!(refiltered, vec![]);
    assert_eq!(parsed, vec![IpAddress::V4(0x01000002)]);
    assert_eq!(parse_txt(&Vec::new()), Ok(vec![]));
}
