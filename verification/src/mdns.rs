//! The multicast-DNS discovery core: a periodic query schedule, a
//! self-origin filter, and a relevance filter over one multicast socket.
//!
//! A session owns a process-unique marker name.  Every outgoing query
//! carries the marker as an additional record, and every incoming packet
//! whose additional records carry it is recognized as the session's own
//! echo and dropped.  A packet is kept only if one of its answer records is
//! owned by the configured service name; everything else on the multicast
//! group is irrelevant traffic and is dropped silently.  Time enters only
//! as instants the transport shell passes in, in milliseconds of its
//! monotonic clock.

use vstd::prelude::*;
use std::collections::VecDeque;
use crate::errors::Error;
use crate::message::{
    encode_mdns_query, gen_instance_name, mdns_wire, name_key, name_key_of, parse_additional_names,
    parse_answers, parse_header, questions_view, records_view, wire_additional_names, wire_answers,
    wire_header, DnsMessage, DnsRecord, Question, SocketAddress, SpecMessage, RECORD_TYPE_PTR,
};
use crate::message::names_view;

verus! {

/// The mDNS multicast group, v4: the octets of 224.0.0.251, big-endian.
pub const MULTICAST_ADDR_IPV4: u32 = 0xE00000FB;

/// The mDNS multicast group, v6: the octets of ff02::123, big-endian.
pub const MULTICAST_ADDR_IPV6: u128 = 0xFF02_0000_0000_0000_0000_0000_0000_0123;

/// The UDP port the multicast group shares.
pub const MULTICAST_PORT: u16 = 5353;

/// What a transport's send step should do next: write a packet, or sleep
/// until the next scheduled query.
pub enum MdnsDiscoverSend {
    /// A packet to multicast.
    Buf(Vec<u8>),
    /// Nothing to write; sleep this many milliseconds.
    Sleep(u64),
}

/// The single question of a periodic service query: a PTR question for the
/// service name.
pub open spec fn ptr_question(service: Seq<char>) -> Seq<(Seq<char>, u16)> {
    seq![(service, RECORD_TYPE_PTR)]
}

/// The decision [`MdnsDiscoverNetwork::recv`] takes on a packet: the parsed
/// message it keeps, or `None` where the packet is dropped silently —
/// because the bytes decode to no message, because an additional record
/// carries the session's own marker, or because no answer record is owned
/// by the service name.
pub open spec fn mdns_keep(b: Seq<u8>, self_id: Seq<char>, service: Seq<char>) -> Option<
    SpecMessage,
> {
    match (wire_header(b), wire_answers(b), wire_additional_names(b)) {
        (Some(header), Some(answers), Some(additionals)) => {
            if additionals.contains(self_id) {
                None
            } else if !(exists|i: int| 0 <= i < answers.len() && answers[i].name == service) {
                None
            } else {
                Some(
                    SpecMessage {
                        id: header.0,
                        response: header.1,
                        rcode: header.2,
                        answers,
                        additionals,
                    },
                )
            }
        },
        _ => None,
    }
}

/// One discovery session, shared between the consumer and the transport
/// loops that drive it.
pub struct MdnsDiscoverNetwork {
    /// Once set, every later operation fails; irreversible.
    closed: bool,
    /// The session's own marker name, canonical: embedded in every
    /// outgoing query, and matched against incoming additional records.
    self_id: String,
    /// The service name asked for, canonical.
    service_name: String,
    /// The re-ask interval, in milliseconds.
    intervals: u64,
    /// When the last query was sent, if one was.
    last_asking: Option<u64>,
    /// Serialized packets waiting for the transport, oldest first.
    outgoing: VecDeque<Vec<u8>>,
    /// Kept packets waiting for the consumer, oldest first.
    incoming: VecDeque<(DnsMessage, SocketAddress)>,
}

impl MdnsDiscoverNetwork {
    /// Whether the session is closed.
    pub closed spec fn is_closed_spec(self) -> bool {
        self.closed
    }

    /// The session's marker name.
    pub closed spec fn self_id_spec(self) -> Seq<char> {
        self.self_id@
    }

    /// The canonical service name.
    pub closed spec fn service_spec(self) -> Seq<char> {
        self.service_name@
    }

    /// The re-ask interval, in milliseconds.
    pub closed spec fn interval_spec(self) -> u64 {
        self.intervals
    }

    /// When the last query was sent, if one was.
    pub closed spec fn last_asked(self) -> Option<u64> {
        self.last_asking
    }

    /// The packets waiting to be multicast, oldest first.
    pub closed spec fn outgoing_view(self) -> Seq<Seq<u8>> {
        self.outgoing@.map_values(|v: Vec<u8>| v@)
    }

    /// The kept messages waiting for the consumer, oldest first.
    pub closed spec fn incoming_view(self) -> Seq<(SpecMessage, SocketAddress)> {
        self.incoming@.map_values(|p: (DnsMessage, SocketAddress)| (p.0@, p.1))
    }

    /// Well-formedness: the next scheduled instant cannot overflow.
    pub open spec fn wf(self) -> bool {
        self.last_asked() matches Some(t) ==> t + self.interval_spec() <= u64::MAX
    }

    /// Create an open session asking for `service_name` every `intervals`
    /// milliseconds, under a freshly generated marker name.
    ///
    /// Fails with [`Error::Malformed`] where a name cannot be parsed — in
    /// particular where `service_name` is no valid DNS name.
    pub fn new(service_name: &str, intervals: u64) -> (r: Result<Self, Error>)
        ensures
            name_key_of(service_name@) is None ==> r is Err,
            match r {
                Ok(s) => {
                    &&& s.wf()
                    &&& !s.is_closed_spec()
                    &&& name_key_of(service_name@) == Some(s.service_spec())
                    &&& s.interval_spec() == intervals
                    &&& s.last_asked() is None
                    &&& s.outgoing_view() == Seq::<Seq<u8>>::empty()
                    &&& s.incoming_view() == Seq::<(SpecMessage, SocketAddress)>::empty()
                },
                Err(e) => e == Error::Malformed,
            },
    {
        let raw = gen_instance_name();
        let id_key = match name_key(raw.as_str()) {
            Some(k) => k,
            None => {
                return Err(Error::Malformed);
            },
        };
        let service_key = match name_key(service_name) {
            Some(k) => k,
            None => {
                return Err(Error::Malformed);
            },
        };
        let r = MdnsDiscoverNetwork {
            closed: false,
            self_id: id_key,
            service_name: service_key,
            intervals,
            last_asking: None,
            outgoing: VecDeque::new(),
            incoming: VecDeque::new(),
        };
        proof {
            assert(r.outgoing_view() =~= Seq::<Seq<u8>>::empty());
            assert(r.incoming_view() =~= Seq::<(SpecMessage, SocketAddress)>::empty());
        }
        Ok(r)
    }

    /// The session's marker name; incoming packets carrying it as an
    /// additional record's owner are recognized as the session's own.
    pub fn id(&self) -> (r: String)
        ensures
            r@ == self.self_id_spec(),
    {
        self.self_id.clone()
    }

    /// Whether the session is closed.
    pub fn is_closed(&self) -> (r: bool)
        ensures
            r == self.is_closed_spec(),
    {
        self.closed
    }

    /// The re-ask interval, in milliseconds.
    pub fn interval(&self) -> (r: u64)
        ensures
            r == self.interval_spec(),
    {
        self.intervals
    }

    /// Close the session.  Repeated calls are safe: the flag is already
    /// set and nothing else changes.  Queued packets stay available until
    /// drained.
    pub fn close(&mut self)
        ensures
            close_rel(*old(self), *final(self)),
    {
        self.closed = true;
    }

    /// When the transport should next call [`Self::on_timeout`]: never on
    /// a closed session; the last query's instant plus the interval after
    /// a query was sent; now — immediately — before the first one.
    pub fn timeout_instant(&self, now: u64) -> (r: Option<u64>)
        requires
            self.wf(),
        ensures
            self.is_closed_spec() ==> r is None,
            !self.is_closed_spec() ==> match self.last_asked() {
                Some(t) => r == Some((t + self.interval_spec()) as u64),
                None => r == Some(now),
            },
    {
        if self.closed {
            return None;
        }
        match self.last_asking {
            Some(t) => Some(t + self.intervals),
            None => Some(now),
        }
    }

    /// Queue a query for the transport: the given questions under the
    /// given id, with the session's marker appended as an additional
    /// record.
    ///
    /// Fails with [`Error::InvalidState`] on a closed session, and with
    /// [`Error::Malformed`] where a name cannot be encoded.
    pub fn multicast(&mut self, id: u16, questions: &Vec<Question>) -> (r: Result<(), Error>)
        ensures
            final(self).is_closed_spec() == old(self).is_closed_spec(),
            final(self).self_id_spec() == old(self).self_id_spec(),
            final(self).service_spec() == old(self).service_spec(),
            final(self).interval_spec() == old(self).interval_spec(),
            final(self).last_asked() == old(self).last_asked(),
            final(self).incoming_view() == old(self).incoming_view(),
            old(self).is_closed_spec() ==> r == Err::<(), Error>(Error::InvalidState) && final(self).outgoing_view() == old(self).outgoing_view(),
            !old(self).is_closed_spec() ==> match mdns_wire(
                id,
                questions_view(questions@),
                old(self).self_id_spec(),
            ) {
                Some(v) => r is Ok && final(self).outgoing_view() == old(self).outgoing_view().push(
                    v,
                ),
                None => r == Err::<(), Error>(Error::Malformed) && final(self).outgoing_view()
                    == old(self).outgoing_view(),
            },
    {
        if self.closed {
            return Err(Error::InvalidState);
        }
        match encode_mdns_query(id, questions, self.self_id.as_str()) {
            Some(v) => {
                self.outgoing.push_back(v);
                proof {
                    assert(self.outgoing_view() =~= old(self).outgoing_view().push(
                        self.outgoing@.last()@,
                    ));
                }
                Ok(())
            },
            None => Err(Error::Malformed),
        }
    }

    /// The periodic timer fired: multicast a PTR query for the service
    /// name under a fresh id, and record `now` as the last query instant.
    ///
    /// Fails with [`Error::InvalidState`] on a closed session, and with
    /// [`Error::Malformed`] where the query cannot be encoded — the last
    /// query instant is then left alone.
    pub fn on_timeout(&mut self, now: u64) -> (r: Result<(), Error>)
        requires
            old(self).wf(),
            now + old(self).interval_spec() <= u64::MAX,
        ensures
            final(self).wf(),
            final(self).is_closed_spec() == old(self).is_closed_spec(),
            final(self).self_id_spec() == old(self).self_id_spec(),
            final(self).service_spec() == old(self).service_spec(),
            final(self).interval_spec() == old(self).interval_spec(),
            final(self).incoming_view() == old(self).incoming_view(),
            old(self).is_closed_spec() ==> r == Err::<(), Error>(Error::InvalidState) && final(self).outgoing_view() == old(self).outgoing_view() && final(self).last_asked() == old(self).last_asked(),
            !old(self).is_closed_spec() ==> exists|qid: u16|
                match #[trigger] mdns_wire(
                    qid,
                    ptr_question(old(self).service_spec()),
                    old(self).self_id_spec(),
                ) {
                    Some(v) => r is Ok && final(self).outgoing_view() == old(self).outgoing_view().push(v) && final(self).last_asked() == Some(now),
                    None => r == Err::<(), Error>(Error::Malformed) && final(self).outgoing_view()
                        == old(self).outgoing_view() && final(self).last_asked() == old(self).last_asked(),
                },
    {
        if self.closed {
            return Err(Error::InvalidState);
        }
        let qid = crate::message::fresh_query_id();
        let questions = vec![Question { name: self.service_name.clone(), qtype: RECORD_TYPE_PTR }];
        proof {
            assert(questions_view(questions@) =~= ptr_question(self.service_spec()));
        }
        match self.multicast(qid, &questions) {
            Ok(()) => {
                self.last_asking = Some(now);
                Ok(())
            },
            Err(e) => Err(e),
        }
    }

    /// Pop the oldest packet waiting to be multicast.
    ///
    /// Returns the packet while one is queued — also on a closed session,
    /// until the queue is drained.  On an empty queue the call reports
    /// `Ok(None)` — the transport must wait for the send-ready signal — or
    /// fails with [`Error::InvalidState`] once the session is closed.
    pub fn send(&mut self) -> (r: Result<Option<Vec<u8>>, Error>)
        ensures
            final(self).is_closed_spec() == old(self).is_closed_spec(),
            final(self).self_id_spec() == old(self).self_id_spec(),
            final(self).service_spec() == old(self).service_spec(),
            final(self).interval_spec() == old(self).interval_spec(),
            final(self).last_asked() == old(self).last_asked(),
            final(self).incoming_view() == old(self).incoming_view(),
            old(self).outgoing_view().len() > 0 ==> match r {
                Ok(Some(v)) => v@ == old(self).outgoing_view()[0]
                    && final(self).outgoing_view() == old(self).outgoing_view().skip(1),
                _ => false,
            },
            old(self).outgoing_view().len() == 0 ==> final(self).outgoing_view() == old(self).outgoing_view() && r == if old(self).is_closed_spec() {
                Err::<Option<Vec<u8>>, Error>(Error::InvalidState)
            } else {
                Ok::<Option<Vec<u8>>, Error>(None)
            },
    {
        match self.outgoing.pop_front() {
            Some(buf) => {
                proof {
                    assert(self.outgoing_view() =~= old(self).outgoing_view().skip(1));
                }
                Ok(Some(buf))
            },
            None => {
                if self.closed {
                    Err(Error::InvalidState)
                } else {
                    Ok(None)
                }
            },
        }
    }

    /// Deliver a packet read from the multicast group.
    ///
    /// The packet is parsed and kept only if it passes both filters — no
    /// additional record carries the session's own marker, and some answer
    /// record is owned by the service name.  A kept packet is queued for
    /// [`Self::accept`] with its sender's address, and `Ok(true)` tells
    /// the caller to signal the consumer.  A dropped packet — malformed,
    /// the session's own echo, or irrelevant — reports `Ok(false)` and is
    /// no error.  A closed session fails with [`Error::InvalidState`].
    pub fn recv(&mut self, buf: &Vec<u8>, from: SocketAddress) -> (r: Result<bool, Error>)
        ensures
            final(self).is_closed_spec() == old(self).is_closed_spec(),
            final(self).self_id_spec() == old(self).self_id_spec(),
            final(self).service_spec() == old(self).service_spec(),
            final(self).interval_spec() == old(self).interval_spec(),
            final(self).last_asked() == old(self).last_asked(),
            final(self).outgoing_view() == old(self).outgoing_view(),
            old(self).is_closed_spec() ==> r == Err::<bool, Error>(Error::InvalidState) && final(self).incoming_view() == old(self).incoming_view(),
            !old(self).is_closed_spec() ==> match mdns_keep(
                buf@,
                old(self).self_id_spec(),
                old(self).service_spec(),
            ) {
                Some(m) => r == Ok::<bool, Error>(true) && final(self).incoming_view() == old(self).incoming_view().push((m, from)),
                None => r == Ok::<bool, Error>(false) && final(self).incoming_view() == old(self).incoming_view(),
            },
    {
        if self.closed {
            return Err(Error::InvalidState);
        }
        let header = match parse_header(buf) {
            Some(h) => h,
            None => {
                return Ok(false);
            },
        };
        let answers = match parse_answers(buf) {
            Some(a) => a,
            None => {
                return Ok(false);
            },
        };
        let additionals = match parse_additional_names(buf) {
            Some(a) => a,
            None => {
                return Ok(false);
            },
        };
        if names_contain(&additionals, &self.self_id) {
            return Ok(false);
        }
        if !any_answer_named(&answers, &self.service_name) {
            return Ok(false);
        }
        let message = DnsMessage {
            id: header.0,
            response: header.1,
            rcode: header.2,
            answers,
            additionals,
        };
        proof {
            assert(mdns_keep(buf@, self.self_id_spec(), self.service_spec()) == Some(message@));
        }
        self.incoming.push_back((message, from));
        proof {
            assert(self.incoming_view() =~= old(self).incoming_view().push(
                (self.incoming@.last().0@, self.incoming@.last().1),
            ));
        }
        Ok(true)
    }

    /// Pop the oldest kept message for the consumer.
    ///
    /// Returns a message while one is queued — also on a closed session,
    /// until the queue is drained.  On an empty queue the call reports
    /// `Ok(None)` — the consumer must wait for the receive-ready signal —
    /// or fails with [`Error::InvalidState`] once the session is closed.
    pub fn accept(&mut self) -> (r: Result<Option<(DnsMessage, SocketAddress)>, Error>)
        ensures
            final(self).is_closed_spec() == old(self).is_closed_spec(),
            final(self).self_id_spec() == old(self).self_id_spec(),
            final(self).service_spec() == old(self).service_spec(),
            final(self).interval_spec() == old(self).interval_spec(),
            final(self).last_asked() == old(self).last_asked(),
            final(self).outgoing_view() == old(self).outgoing_view(),
            old(self).incoming_view().len() > 0 ==> match r {
                Ok(Some(p)) => (p.0@, p.1) == old(self).incoming_view()[0]
                    && final(self).incoming_view() == old(self).incoming_view().skip(1),
                _ => false,
            },
            old(self).incoming_view().len() == 0 ==> final(self).incoming_view() == old(self).incoming_view() && r == if old(self).is_closed_spec() {
                Err::<Option<(DnsMessage, SocketAddress)>, Error>(Error::InvalidState)
            } else {
                Ok::<Option<(DnsMessage, SocketAddress)>, Error>(None)
            },
    {
        match self.incoming.pop_front() {
            Some(p) => {
                proof {
                    assert(self.incoming_view() =~= old(self).incoming_view().skip(1));
                }
                Ok(Some(p))
            },
            None => {
                if self.closed {
                    Err(Error::InvalidState)
                } else {
                    Ok(None)
                }
            },
        }
    }
}

/// What [`MdnsDiscoverNetwork::close`] does: the closed flag is set and
/// every other observable is left alone.
pub open spec fn close_rel(a: MdnsDiscoverNetwork, b: MdnsDiscoverNetwork) -> bool {
    &&& b.is_closed_spec()
    &&& b.self_id_spec() == a.self_id_spec()
    &&& b.service_spec() == a.service_spec()
    &&& b.interval_spec() == a.interval_spec()
    &&& b.last_asked() == a.last_asked()
    &&& b.outgoing_view() == a.outgoing_view()
    &&& b.incoming_view() == a.incoming_view()
}

/// Law (close is idempotent): closing an already-closed session changes
/// no observable — the second close finds every observable where the
/// first left it.
pub proof fn lemma_close_idempotent(
    s0: MdnsDiscoverNetwork,
    s1: MdnsDiscoverNetwork,
    s2: MdnsDiscoverNetwork,
)
    requires
        close_rel(s0, s1),
        close_rel(s1, s2),
    ensures
        s2.is_closed_spec() == s1.is_closed_spec(),
        s2.self_id_spec() == s1.self_id_spec(),
        s2.service_spec() == s1.service_spec(),
        s2.interval_spec() == s1.interval_spec(),
        s2.last_asked() == s1.last_asked(),
        s2.outgoing_view() == s1.outgoing_view(),
        s2.incoming_view() == s1.incoming_view(),
{
}

/// Law (self-origin suppression): a packet whose additional records carry
/// the session's own marker name is never kept — whatever its answers
/// hold, [`MdnsDiscoverNetwork::recv`] leaves the consumer queue alone,
/// so [`MdnsDiscoverNetwork::accept`] can never deliver it.
pub proof fn lemma_self_suppression(b: Seq<u8>, self_id: Seq<char>, service: Seq<char>)
    requires
        wire_additional_names(b) matches Some(additionals) && additionals.contains(self_id),
    ensures
        mdns_keep(b, self_id, service) is None,
{
}

/// Law (relevance filter): a packet none of whose answer records is owned
/// by the configured service name is never kept, so it is never delivered
/// to the consumer.
pub proof fn lemma_relevance_filter(b: Seq<u8>, self_id: Seq<char>, service: Seq<char>)
    requires
        wire_answers(b) matches Some(answers) ==> forall|i: int|
            0 <= i < answers.len() ==> answers[i].name != service,
    ensures
        mdns_keep(b, self_id, service) is None,
{
}

/// Whether one of the names is the target, character for character.
fn names_contain(names: &Vec<String>, target: &String) -> (r: bool)
    ensures
        r == names_view(names@).contains(target@),
{
    let mut i: usize = 0;
    while i < names.len()
        invariant
            0 <= i <= names.len(),
            forall|j: int| 0 <= j < i ==> names_view(names@)[j] != target@,
        decreases names.len() - i,
    {
        if names[i].eq(target) {
            proof {
                assert(names_view(names@)[i as int] == target@);
            }
            return true;
        }
        i = i + 1;
    }
    proof {
        assert(!names_view(names@).contains(target@));
    }
    false
}

/// Whether one of the records is owned by the target name.
fn any_answer_named(records: &Vec<DnsRecord>, target: &String) -> (r: bool)
    ensures
        r == exists|i: int|
            0 <= i < records_view(records@).len() && records_view(records@)[i].name == target@,
{
    let mut i: usize = 0;
    while i < records.len()
        invariant
            0 <= i <= records.len(),
            forall|j: int| 0 <= j < i ==> records_view(records@)[j].name != target@,
        decreases records.len() - i,
    {
        if records[i].name.eq(target) {
            proof {
                assert(records_view(records@)[i as int].name == target@);
            }
            return true;
        }
        i = i + 1;
    }
    false
}

} // verus!
