//! The data model of a DNS message, and the trusted boundary to the wire
//! codec.
//!
//! The engines in this crate never look at raw record encodings: a message is
//! decoded once, at this boundary, into plain values (integers, strings, byte
//! vectors), and every decision afterwards is verified logic over those
//! values.  The codec itself — `hickory_proto` — is relied upon through the
//! wrappers below, whose contracts give each decoding a name: decoding is a
//! function of the input bytes alone, so the same bytes always stand for the
//! same parsed values.

use vstd::prelude::*;

use hickory_proto::op::Message;
use hickory_proto::op::MessageType;
use hickory_proto::op::Query;
use hickory_proto::rr::rdata::NULL;
use hickory_proto::rr::Name;
use hickory_proto::rr::RData;
use hickory_proto::rr::Record;
use hickory_proto::rr::RecordData;
use hickory_proto::rr::RecordType;

verus! {

/// Wire value of the A record type.
pub const RECORD_TYPE_A: u16 = 1;

/// Wire value of the PTR record type.
pub const RECORD_TYPE_PTR: u16 = 12;

/// Wire value of the TXT record type.
pub const RECORD_TYPE_TXT: u16 = 16;

/// Wire value of the AAAA record type.
pub const RECORD_TYPE_AAAA: u16 = 28;

/// An IP address as plain data: a v4 address is its four octets read as a
/// big-endian integer, a v6 address its sixteen.
#[derive(Debug, Clone, Copy, PartialEq, Eq, Structural)]
pub enum IpAddress {
    V4(u32),
    V6(u128),
}

/// A socket address as plain data.
#[derive(Debug, Clone, Copy, PartialEq, Eq, Structural)]
pub struct SocketAddress {
    pub ip: IpAddress,
    pub port: u16,
}

/// One question of a query: an owner name and a record type.
#[derive(Debug, Clone, PartialEq, Eq)]
pub struct Question {
    /// The queried name, in source form; it is encoded by the codec.
    pub name: String,
    /// The queried record type, by its wire value.
    pub qtype: u16,
}

impl View for Question {
    type V = (Seq<char>, u16);

    open spec fn view(&self) -> (Seq<char>, u16) {
        (self.name@, self.qtype)
    }
}

/// The typed data of a resource record, reduced to plain values.
#[derive(Debug, Clone, PartialEq, Eq)]
pub enum RecordPayload {
    /// An A record: the address octets as a big-endian integer.
    V4(u32),
    /// An AAAA record: the address octets as a big-endian integer.
    V6(u128),
    /// A TXT record: its character strings, each as raw bytes.
    Txt(Vec<Vec<u8>>),
    /// A PTR record: the pointed-to name, canonical.
    Ptr(String),
    /// Any other record type; the engines pass it through untouched.
    Other,
}

/// The mathematical value of a [`RecordPayload`].
pub enum SpecPayload {
    V4(u32),
    V6(u128),
    Txt(Seq<Seq<u8>>),
    Ptr(Seq<char>),
    Other,
}

impl View for RecordPayload {
    type V = SpecPayload;

    open spec fn view(&self) -> SpecPayload {
        match self {
            RecordPayload::V4(a) => SpecPayload::V4(*a),
            RecordPayload::V6(a) => SpecPayload::V6(*a),
            RecordPayload::Txt(parts) => SpecPayload::Txt(parts.deep_view()),
            RecordPayload::Ptr(name) => SpecPayload::Ptr(name@),
            RecordPayload::Other => SpecPayload::Other,
        }
    }
}

/// One resource record: its owner name, canonical, and its data.
#[derive(Debug, Clone, PartialEq, Eq)]
pub struct DnsRecord {
    /// The owner name in canonical form: labels lowercased, joined by `.`,
    /// with the closing dot of a fully qualified name.
    pub name: String,
    /// The record data.
    pub data: RecordPayload,
}

/// The mathematical value of a [`DnsRecord`].
pub struct SpecRecord {
    pub name: Seq<char>,
    pub data: SpecPayload,
}

impl View for DnsRecord {
    type V = SpecRecord;

    open spec fn view(&self) -> SpecRecord {
        SpecRecord { name: self.name@, data: self.data@ }
    }
}

/// A parsed DNS message, reduced to what the engines read: the header triple
/// and the answer and additional sections.
#[derive(Debug, Clone, PartialEq, Eq)]
pub struct DnsMessage {
    /// The 16-bit transaction id of the header.
    pub id: u16,
    /// True when the header tags the message as a response.
    pub response: bool,
    /// The response code of the header, by its wire value.
    pub rcode: u16,
    /// The answer records.
    pub answers: Vec<DnsRecord>,
    /// The owner names of the additional records, canonical.
    pub additionals: Vec<String>,
}

/// The mathematical value of a [`DnsMessage`].
pub struct SpecMessage {
    pub id: u16,
    pub response: bool,
    pub rcode: u16,
    pub answers: Seq<SpecRecord>,
    pub additionals: Seq<Seq<char>>,
}

impl View for DnsMessage {
    type V = SpecMessage;

    open spec fn view(&self) -> SpecMessage {
        SpecMessage {
            id: self.id,
            response: self.response,
            rcode: self.rcode,
            answers: records_view(self.answers@),
            additionals: names_view(self.additionals@),
        }
    }
}

/// The values of a sequence of records.
pub open spec fn records_view(s: Seq<DnsRecord>) -> Seq<SpecRecord> {
    s.map_values(|r: DnsRecord| r@)
}

/// The values of a sequence of names.
pub open spec fn names_view(s: Seq<String>) -> Seq<Seq<char>> {
    s.map_values(|n: String| n@)
}

/// The values of a sequence of questions.
pub open spec fn questions_view(s: Seq<Question>) -> Seq<(Seq<char>, u16)> {
    s.map_values(|q: Question| q@)
}

/// The serialization of a recursion-desired query with the given id and one
/// question per requested record type, or `None` where the name cannot be
/// encoded.
pub uninterp spec fn query_wire(id: u16, qname: Seq<char>, qtypes: Seq<u16>) -> Option<Seq<u8>>;

/// The serialization of a query message carrying the given questions and one
/// additional record owned by the marker name, or `None` where a name cannot
/// be encoded.
pub uninterp spec fn mdns_wire(id: u16, questions: Seq<(Seq<char>, u16)>, marker: Seq<char>) -> Option<Seq<u8>>;

/// The header triple — id, response tag, response code — of the message the
/// given bytes decode to, or `None` where they decode to no message.
pub uninterp spec fn wire_header(b: Seq<u8>) -> Option<(u16, bool, u16)>;

/// The answer records of the message the given bytes decode to, owner names
/// canonical, or `None` where they decode to no message.
pub uninterp spec fn wire_answers(b: Seq<u8>) -> Option<Seq<SpecRecord>>;

/// The owner names, canonical, of the additional records of the message the
/// given bytes decode to, or `None` where they decode to no message.
pub uninterp spec fn wire_additional_names(b: Seq<u8>) -> Option<Seq<Seq<char>>>;

/// The canonical form of a DNS name written as text — labels lowercased and
/// closed by a dot — or `None` where the text is no valid name.
pub uninterp spec fn name_key_of(s: Seq<char>) -> Option<Seq<char>>;

/// The text the given bytes spell in UTF-8, or `None` where they are not
/// valid UTF-8.
pub uninterp spec fn utf8_of(b: Seq<u8>) -> Option<Seq<char>>;

/// Relies on `hickory_proto`: `Message::new`, `Message::set_id`,
/// `Message::set_recursion_desired`, `Name::from_ascii`, `Query::query` and
/// `Message::to_vec` build and serialize a recursion-desired query.  The
/// header is 12 bytes and opens with the id in big-endian order
/// (`Header::emit` reserves 12 bytes and emits the id first).
#[verifier::external_body]
pub(crate) fn encode_query(id: u16, qname: &str, qtypes: &Vec<u16>) -> (r: Option<Vec<u8>>)
    ensures
        match r {
            Some(v) => query_wire(id, qname@, qtypes@) == Some(v@)
                && v@.len() >= 12
                && v@[0] == (id / 256) as u8
                && v@[1] == (id % 256) as u8,
            None => query_wire(id, qname@, qtypes@) is None,
        },
{
    let mut m = Message::new();
    m.set_id(id).set_recursion_desired(true);
    for qtype in qtypes {
        let name = match Name::from_ascii(qname) {
            Ok(name) => name,
            Err(_) => return None,
        };
        m.add_query(Query::query(name, RecordType::from(*qtype)));
    }
    m.to_vec().ok()
}

/// Relies on `hickory_proto`: `Message::new`, `Message::set_id`,
/// `Message::set_message_type`, `Name::from_utf8`, `Query::query`,
/// `Record::from_rdata` with a `NULL` rdata, and `Message::to_vec` build and
/// serialize a query that carries one additional record owned by the marker
/// name.  The header is 12 bytes and opens with the id in big-endian order.
#[verifier::external_body]
pub(crate) fn encode_mdns_query(id: u16, questions: &Vec<Question>, marker: &str) -> (r: Option<
    Vec<u8>,
>)
    ensures
        match r {
            Some(v) => mdns_wire(id, questions_view(questions@), marker@) == Some(v@)
                && v@.len() >= 12,
            None => mdns_wire(id, questions_view(questions@), marker@) is None,
        },
{
    let mut m = Message::new();
    m.set_id(id).set_message_type(MessageType::Query);
    for q in questions {
        let name = match Name::from_utf8(&q.name) {
            Ok(name) => name,
            Err(_) => return None,
        };
        m.add_query(Query::query(name, RecordType::from(q.qtype)));
    }
    let marker_name = match Name::from_utf8(marker) {
        Ok(name) => name,
        Err(_) => return None,
    };
    m.add_additional(Record::from_rdata(marker_name, 0, NULL::new().into_rdata()));
    m.to_vec().ok()
}

/// Relies on `hickory_proto::op::Message::from_vec` and the header accessors
/// `id`, `message_type` and `response_code`: decoding depends on the bytes
/// alone.
#[verifier::external_body]
pub(crate) fn parse_header(buf: &Vec<u8>) -> (r: Option<(u16, bool, u16)>)
    ensures
        r == wire_header(buf@),
{
    match Message::from_vec(buf) {
        Ok(m) => Some((m.id(), m.message_type() == MessageType::Response, m.response_code().into())),
        Err(_) => None,
    }
}

/// Relies on `hickory_proto::op::Message::from_vec` and, for each answer
/// record, `Record::name`, `Name::to_lowercase`, `Name::to_utf8` and
/// `Record::data`: decoding depends on the bytes alone, and each record is
/// carried over one for one.
#[verifier::external_body]
pub(crate) fn parse_answers(buf: &Vec<u8>) -> (r: Option<Vec<DnsRecord>>)
    ensures
        match r {
            Some(v) => wire_answers(buf@) == Some(records_view(v@)),
            None => wire_answers(buf@) is None,
        },
{
    let m = match Message::from_vec(buf) {
        Ok(m) => m,
        Err(_) => return None,
    };
    Some(m.answers().iter().map(|r| DnsRecord {
        name: r.name().to_lowercase().to_utf8(),
        data: match r.data() {
            Some(RData::A(a)) => RecordPayload::V4(u32::from(a.0)),
            Some(RData::AAAA(a)) => RecordPayload::V6(u128::from(a.0)),
            Some(RData::TXT(t)) => RecordPayload::Txt(t.iter().map(|s| s.to_vec()).collect()),
            Some(RData::PTR(p)) => RecordPayload::Ptr(p.0.to_lowercase().to_utf8()),
            _ => RecordPayload::Other,
        },
    }).collect())
}

/// Relies on `hickory_proto::op::Message::from_vec` and, for each additional
/// record, `Record::name`, `Name::to_lowercase` and `Name::to_utf8`: decoding
/// depends on the bytes alone.
#[verifier::external_body]
pub(crate) fn parse_additional_names(buf: &Vec<u8>) -> (r: Option<Vec<String>>)
    ensures
        match r {
            Some(v) => wire_additional_names(buf@) == Some(names_view(v@)),
            None => wire_additional_names(buf@) is None,
        },
{
    match Message::from_vec(buf) {
        Ok(m) => Some(m.additionals().iter().map(|r| r.name().to_lowercase().to_utf8()).collect()),
        Err(_) => None,
    }
}

/// Relies on `hickory_proto::rr::Name`: `from_utf8` parses the text,
/// `set_fqdn` closes the name, and `to_lowercase` with `to_utf8` write it
/// back out; all of them depend on the text alone.  The result is the form
/// the parsing wrappers above give to owner names, so equal keys mean equal
/// names under the codec's case-insensitive comparison.
#[verifier::external_body]
pub(crate) fn name_key(s: &str) -> (r: Option<String>)
    ensures
        match r {
            Some(k) => name_key_of(s@) == Some(k@),
            None => name_key_of(s@) is None,
        },
{
    match Name::from_utf8(s) {
        Ok(mut n) => {
            n.set_fqdn(true);
            Some(n.to_lowercase().to_utf8())
        },
        Err(_) => None,
    }
}

/// Relies on `rand::random`: a fresh query id for an mDNS query.  The
/// value is random, so nothing is promised of it; every caller must work
/// for every id.
#[verifier::external_body]
pub(crate) fn fresh_query_id() -> u16 {
    rand::random()
}

/// Relies on `uuid::Uuid::new_v4`: a process-unique instance name, built
/// from a freshly drawn random identifier.  The value is random, so
/// nothing is promised of it; it serves only as a comparison key.
#[verifier::external_body]
pub(crate) fn gen_instance_name() -> String {
    format!("{}.futures-dns.mdns", uuid::Uuid::new_v4())
}

/// Relies on `core::str::from_utf8`, whose result depends on the bytes
/// alone.
#[verifier::external_body]
pub(crate) fn utf8_string(b: &Vec<u8>) -> (r: Option<String>)
    ensures
        match r {
            Some(s) => utf8_of(b@) == Some(s@),
            None => utf8_of(b@) is None,
        },
{
    match core::str::from_utf8(b) {
        Ok(s) => Some(s.to_string()),
        Err(_) => None,
    }
}

} // verus!
