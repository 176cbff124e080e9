//! The discovery session: self-origin suppression, the relevance filter,
//! the query schedule, and close semantics.

use futures_dns::errors::Error;
use futures_dns::message::{IpAddress, SocketAddress};
use futures_dns::mdns::{MdnsDiscoverNetwork, MULTICAST_PORT};

use hickory_proto::op::{Message, MessageType};
use hickory_proto::rr::rdata::{NULL, PTR};
use hickory_proto::rr::{Name, RData, Record};

const SERVICE: &str = "_svc._udp.local";

fn peer() -> SocketAddress {
    SocketAddress { ip: IpAddress::V4(0xC0A80017), port: MULTICAST_PORT }
}

/// A multicast response with the given answer owner names and additional
/// record owner names.
fn packet(answer_names: &[&str], additional_names: &[&str]) -> Vec<u8> {
    let mut m = Message::new();
    m.set_id(77).set_message_type(MessageType::Response);
    for name in answer_names {
        m.add_answer(Record::from_rdata(
            Name::from_utf8(name).unwrap(),
            120,
            RData::PTR(PTR(Name::from_utf8("peer.instance.local").unwrap())),
        ));
    }
    for name in additional_names {
        m.add_additional(Record::from_rdata(
            Name::from_utf8(name).unwrap(),
            0,
            RData::NULL(NULL::new()),
        ));
    }
    m.to_vec().unwrap()
}

#[test]
fn test_relevant_packet_is_delivered() {
    let mut session = MdnsDiscoverNetwork::new(SERVICE, 4000).unwrap();
    assert_eq!(session.recv(&packet(&[SERVICE], &[]), peer()), Ok(true));

    let (message, from) = session.accept().unwrap().unwrap();
    assert_eq!(from, peer());
    assert_eq!(message.id, 77);
    assert!(message.response);
    // Owner names come out canonical: lowercased and fully qualified.
    assert_eq!(message.answers.len(), 1);
    assert_eq!(message.answers[0].name, "_svc._udp.local.");

    assert_eq!(session.accept(), Ok(None));
}

#[test]
fn test_self_suppression() {
    let mut session = MdnsDiscoverNetwork::new(SERVICE, 4000).unwrap();
    let own_id = session.id();
    // The packet matches the service, but its additionals carry the
    // session's own marker: it is an echo and is never delivered.
    let echo = packet(&[SERVICE], &[own_id.as_str()]);
    assert_eq!(session.recv(&echo, peer()), Ok(false));
    assert_eq!(session.accept(), Ok(None));
}

#[test]
fn test_relevance_filter() {
    let mut session = MdnsDiscoverNetwork::new(SERVICE, 4000).unwrap();
    // No answer record owned by the service name: irrelevant traffic.
    assert_eq!(session.recv(&packet(&["_other._udp.local"], &[]), peer()), Ok(false));
    // Matching the service name in an additional record is not enough.
    assert_eq!(session.recv(&packet(&["_other._udp.local"], &[SERVICE]), peer()), Ok(false));
    assert_eq!(session.accept(), Ok(None));
}

#[test]
fn test_case_insensitive_service_match() {
    // The configured name and the packet's name differ in case; both are
    // canonicalized, so they still match.
    let mut session = MdnsDiscoverNetwork::new("_SVC._UDP.Local", 4000).unwrap();
    assert_eq!(session.recv(&packet(&["_svc._udp.LOCAL"], &[]), peer()), Ok(true));
    assert!(session.accept().unwrap().is_some());
}

#[test]
fn test_malformed_packet_dropped_silently() {
    let mut session = MdnsDiscoverNetwork::new(SERVICE, 4000).unwrap();
    assert_eq!(session.recv(&vec![0xFFu8; 5], peer()), Ok(false));
    assert_eq!(session.accept(), Ok(None));
}

#[test]
fn test_timeout_schedule() {
    let mut session = MdnsDiscoverNetwork::new(SERVICE, 4000).unwrap();
    // Before any query was sent, the first one is due immediately.
    assert_eq!(session.timeout_instant(123), Some(123));
    assert_eq!(session.timeout_instant(7), Some(7));

    session.on_timeout(1000).unwrap();
    // Afterwards, exactly one interval after the last query.
    assert_eq!(session.timeout_instant(9999), Some(5000));

    session.close();
    assert_eq!(session.timeout_instant(0), None);
}

#[test]
fn test_on_timeout_queues_marked_query() {
    let mut session = MdnsDiscoverNetwork::new(SERVICE, 4000).unwrap();
    session.on_timeout(50).unwrap();

    let buf = session.send().unwrap().unwrap();
    let parsed = Message::from_vec(&buf).unwrap();
    assert_eq!(parsed.message_type(), MessageType::Query);
    assert_eq!(parsed.queries().len(), 1);
    assert_eq!(parsed.queries()[0].query_type(), hickory_proto::rr::RecordType::PTR);
    assert_eq!(parsed.queries()[0].name(), &Name::from_utf8(SERVICE).unwrap());
    // The session's marker rides along as an additional record ...
    assert_eq!(parsed.additionals().len(), 1);
    assert_eq!(parsed.additionals()[0].name(), &Name::from_utf8(session.id().as_str()).unwrap());

    // ... so the session recognizes its own query as an echo.
    assert_eq!(session.recv(&buf, peer()), Ok(false));
    assert_eq!(session.accept(), Ok(None));
}

#[test]
fn test_multicast_fails_when_closed() {
    let mut session = MdnsDiscoverNetwork::new(SERVICE, 4000).unwrap();
    session.close();
    assert_eq!(session.multicast(1, &Vec::new()), Err(Error::InvalidState));
    assert_eq!(session.on_timeout(0), Err(Error::InvalidState));
}

#[test]
fn test_close_semantics() {
    let mut session = MdnsDiscoverNetwork::new(SERVICE, 4000).unwrap();
    session.on_timeout(10).unwrap();
    assert_eq!(session.recv(&packet(&[SERVICE], &[]), peer()), Ok(true));

    session.close();
    session.close(); // a second close produces no additional effect

    // Queued items are still drained after close ...
    assert!(session.send().unwrap().is_some());
    assert!(session.accept().unwrap().is_some());

    // ... and once drained, every blocking operation reports the state.
    assert_eq!(session.send(), Err(Error::InvalidState));
    assert_eq!(session.accept(), Err(Error::InvalidState));
    assert_eq!(session.recv(&packet(&[SERVICE], &[]), peer()), Err(Error::InvalidState));
    assert!(session.is_closed());
}

#[test]
fn test_new_rejects_invalid_service_name() {
    let long_label = "b".repeat(80);
    assert!(matches!(MdnsDiscoverNetwork::new(&long_label, 1000), Err(Error::Malformed)));
}
