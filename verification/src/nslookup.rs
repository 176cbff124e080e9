//! The unicast DNS resolver core: transaction correlation over one shared,
//! unordered transport.
//!
//! A session owns a wrapping 16-bit transaction counter, a FIFO queue of
//! serialized queries waiting to be sent, and a buffer of received responses
//! keyed by the transaction id each one carries in its header.  The
//! transport shell drains the outbound queue with [`DnsLookupNetwork::send`],
//! feeds every datagram it reads to [`DnsLookupNetwork::recv`], and a lookup
//! consumes the response buffered under its own id — so concurrently
//! pending lookups resolve independently, whatever order the responses
//! arrive in.

use vstd::prelude::*;
use std::collections::HashMap;
use std::collections::VecDeque;
use crate::errors::Error;
use crate::message::{
    encode_query, parse_answers, parse_header, query_wire, records_view, wire_answers,
    wire_header, DnsRecord, IpAddress, RecordPayload, SpecPayload, SpecRecord,
};
use crate::message::{names_view, utf8_of, utf8_string};
use vstd::string::StringExecFns;

verus! {

broadcast use vstd::std_specs::hash::group_hash_axioms;

/// The transaction id a packet carries: its first two bytes, big-endian.
pub open spec fn header_id(b: Seq<u8>) -> u16
    recommends
        b.len() >= 2,
{
    (b[0] as int * 256 + b[1] as int) as u16
}

/// One resolver session, shared between the lookups and the transport loop
/// that drives it.
pub struct DnsLookupNetwork {
    /// Once set, every later send or receive fails; irreversible.
    closed: bool,
    /// The wrapping counter the next transaction id is drawn from.
    idgen: u16,
    /// Serialized queries waiting for the transport, oldest first.
    sending: VecDeque<Vec<u8>>,
    /// Received responses, keyed by the id in their header; a later
    /// response under the same id replaces the earlier one.
    responses: HashMap<u16, Vec<u8>>,
}

impl DnsLookupNetwork {
    /// Whether the session is closed.
    pub closed spec fn is_closed_spec(self) -> bool {
        self.closed
    }

    /// The id the next transaction will draw.
    pub closed spec fn next_id(self) -> u16 {
        self.idgen
    }

    /// The serialized queries waiting to be sent, oldest first.
    pub closed spec fn outbound(self) -> Seq<Seq<u8>> {
        self.sending@.map_values(|v: Vec<u8>| v@)
    }

    /// The buffered responses: transaction id to raw packet.
    pub closed spec fn buffered(self) -> Map<u16, Seq<u8>> {
        self.responses@.map_values(|v: Vec<u8>| v@)
    }

    /// Create an open session with no queued packets and the id counter at
    /// zero.
    pub fn new() -> (r: Self)
        ensures
            !r.is_closed_spec(),
            r.next_id() == 0,
            r.outbound() == Seq::<Seq<u8>>::empty(),
            r.buffered() == Map::<u16, Seq<u8>>::empty(),
    {
        let r = DnsLookupNetwork {
            closed: false,
            idgen: 0,
            sending: VecDeque::new(),
            responses: HashMap::new(),
        };
        proof {
            assert(r.outbound() =~= Seq::<Seq<u8>>::empty());
            assert(r.buffered() =~= Map::<u16, Seq<u8>>::empty());
        }
        r
    }

    /// Whether the session is closed.
    pub fn is_closed(&self) -> (r: bool)
        ensures
            r == self.is_closed_spec(),
    {
        self.closed
    }

    /// Close the session.  Repeated calls are safe: the flag is already set
    /// and nothing else changes.  Queued packets and buffered responses
    /// stay available until drained.
    pub fn close(&mut self)
        ensures
            close_rel(*old(self), *final(self)),
    {
        self.closed = true;
    }

    /// Pop the oldest packet waiting to be sent.
    ///
    /// Returns the packet while one is queued — also on a closed session,
    /// until the queue is drained.  On an empty queue the call reports
    /// `Ok(None)` — the transport must wait for the send-ready signal — or
    /// fails with [`Error::InvalidState`] once the session is closed.
    pub fn send(&mut self) -> (r: Result<Option<Vec<u8>>, Error>)
        ensures
            final(self).is_closed_spec() == old(self).is_closed_spec(),
            final(self).next_id() == old(self).next_id(),
            final(self).buffered() == old(self).buffered(),
            old(self).outbound().len() > 0 ==> match r {
                Ok(Some(v)) => v@ == old(self).outbound()[0]
                    && final(self).outbound() == old(self).outbound().skip(1),
                _ => false,
            },
            old(self).outbound().len() == 0 ==> final(self).outbound() == old(self).outbound()
                && r == if old(self).is_closed_spec() {
                Err::<Option<Vec<u8>>, Error>(Error::InvalidState)
            } else {
                Ok::<Option<Vec<u8>>, Error>(None)
            },
    {
        match self.sending.pop_front() {
            Some(buf) => {
                proof {
                    assert(self.outbound() =~= old(self).outbound().skip(1));
                }
                Ok(Some(buf))
            },
            None => {
                if self.closed {
                    Err(Error::InvalidState)
                } else {
                    Ok(None)
                }
            },
        }
    }

    /// Deliver a packet received from the transport.
    ///
    /// On an open session and a packet of at least the 12 header bytes, the
    /// packet is buffered under the transaction id its header carries —
    /// replacing any earlier response under that id — and that id is
    /// returned so the caller can wake the lookup waiting for it.  A
    /// shorter packet fails with [`Error::TooShort`], and a closed session
    /// with [`Error::InvalidState`]; neither touches any pending
    /// transaction.
    pub fn recv(&mut self, buf: Vec<u8>) -> (r: Result<u16, Error>)
        ensures
            final(self).is_closed_spec() == old(self).is_closed_spec(),
            final(self).next_id() == old(self).next_id(),
            final(self).outbound() == old(self).outbound(),
            old(self).is_closed_spec() ==> r == Err::<u16, Error>(Error::InvalidState)
                && final(self).buffered() == old(self).buffered(),
            !old(self).is_closed_spec() && buf@.len() < 12 ==> r == Err::<u16, Error>(
                Error::TooShort,
            ) && final(self).buffered() == old(self).buffered(),
            !old(self).is_closed_spec() && buf@.len() >= 12 ==> r == Ok::<u16, Error>(
                header_id(buf@),
            ) && final(self).buffered() == old(self).buffered().insert(header_id(buf@), buf@),
    {
        if self.closed {
            return Err(Error::InvalidState);
        }
        if buf.len() < 12 {
            return Err(Error::TooShort);
        }
        let id: u16 = (buf[0] as u16) * 256 + (buf[1] as u16);
        self.responses.insert(id, buf);
        proof {
            assert(self.buffered() =~= old(self).buffered().insert(id, buf@));
        }
        Ok(id)
    }

    /// Take the response buffered under `id`, if one has arrived.
    pub fn take_response(&mut self, id: u16) -> (r: Option<Vec<u8>>)
        ensures
            final(self).is_closed_spec() == old(self).is_closed_spec(),
            final(self).next_id() == old(self).next_id(),
            final(self).outbound() == old(self).outbound(),
            final(self).buffered() == old(self).buffered().remove(id),
            match r {
                Some(v) => old(self).buffered().contains_key(id) && v@ == old(self).buffered()[id],
                None => !old(self).buffered().contains_key(id),
            },
    {
        let r = self.responses.remove(&id);
        proof {
            assert(self.buffered() =~= old(self).buffered().remove(id));
        }
        r
    }

    /// Open a transaction: draw the next id from the wrapping counter,
    /// build the query — recursion desired, one question per requested
    /// record type — and queue its serialization for the transport.
    ///
    /// Returns the transaction id; the caller then waits for the response
    /// buffered under it.  The id of the queued packet's header is that
    /// same id: the server echoes it, which is what routes the response
    /// back.  Fails with [`Error::Malformed`] if the name cannot be
    /// encoded; the drawn id is consumed either way.
    pub fn start_lookup(&mut self, qname: &str, qtypes: &Vec<u16>) -> (r: Result<u16, Error>)
        ensures
            final(self).is_closed_spec() == old(self).is_closed_spec(),
            final(self).buffered() == old(self).buffered(),
            final(self).next_id() == (old(self).next_id() + 1) % 0x10000,
            match query_wire(old(self).next_id(), qname@, qtypes@) {
                Some(v) => r == Ok::<u16, Error>(old(self).next_id()) && final(self).outbound()
                    == old(self).outbound().push(v) && header_id(v) == old(self).next_id() && v.len()
                    >= 12,
                None => r == Err::<u16, Error>(Error::Malformed)
                    && final(self).outbound() == old(self).outbound(),
            },
    {
        let id: u16 = self.idgen;
        self.idgen = if self.idgen == 0xFFFF {
            0
        } else {
            self.idgen + 1
        };
        match encode_query(id, qname, qtypes) {
            Some(v) => {
                proof {
                    vstd::arithmetic::div_mod::lemma_fundamental_div_mod(id as int, 256);
                    assert(header_id(v@) == id);
                    assert(self.outbound().push(v@) =~= old(self).outbound().push(v@));
                }
                self.sending.push_back(v);
                proof {
                    assert(self.outbound() =~= old(self).outbound().push(v@));
                }
                Ok(id)
            },
            None => Err(Error::Malformed),
        }
    }
}

/// The addresses one answer record contributes: the address of an A or an
/// AAAA record, nothing from any other type.
pub open spec fn addr_contrib(r: SpecRecord) -> Seq<IpAddress> {
    match r.data {
        SpecPayload::V4(a) => seq![IpAddress::V4(a)],
        SpecPayload::V6(a) => seq![IpAddress::V6(a)],
        _ => Seq::empty(),
    }
}

/// The addresses a list of answer records carries, in record order.
pub open spec fn addrs_of(answers: Seq<SpecRecord>) -> Seq<IpAddress>
    decreases answers.len(),
{
    if answers.len() == 0 {
        Seq::empty()
    } else {
        addrs_of(answers.drop_last()) + addr_contrib(answers.last())
    }
}

/// Collect the addresses the answer records carry: one for each A or AAAA
/// record, in record order; any other record type is discarded silently.
pub fn parse_ip_addrs(answers: &Vec<DnsRecord>) -> (r: Vec<IpAddress>)
    ensures
        r@ == addrs_of(records_view(answers@)),
{
    let ghost all = records_view(answers@);
    let mut group: Vec<IpAddress> = Vec::new();
    proof {
        assert(group@ =~= addrs_of(all.subrange(0, 0)));
    }
    let mut i: usize = 0;
    while i < answers.len()
        invariant
            all == records_view(answers@),
            0 <= i <= answers.len(),
            all.len() == answers.len(),
            group@ == addrs_of(all.subrange(0, i as int)),
        decreases answers.len() - i,
    {
        proof {
            assert(all.subrange(0, i + 1).drop_last() =~= all.subrange(0, i as int));
            assert(all.subrange(0, i + 1).last() == all[i as int]);
            assert(all[i as int] == answers@[i as int]@);
        }
        match &answers[i].data {
            RecordPayload::V4(a) => group.push(IpAddress::V4(*a)),
            RecordPayload::V6(a) => group.push(IpAddress::V6(*a)),
            _ => (),
        }
        proof {
            assert(group@ =~= addrs_of(all.subrange(0, i + 1)));
        }
        i = i + 1;
    }
    proof {
        assert(all.subrange(0, answers@.len() as int) =~= all);
    }
    group
}

/// The text one TXT record spells: each character string decoded as UTF-8,
/// the pieces joined in order; `None` where any piece is not valid UTF-8.
pub open spec fn txt_join(parts: Seq<Seq<u8>>) -> Option<Seq<char>>
    decreases parts.len(),
{
    if parts.len() == 0 {
        Some(Seq::empty())
    } else {
        match (txt_join(parts.drop_last()), utf8_of(parts.last())) {
            (Some(rest), Some(c)) => Some(rest + c),
            _ => None,
        }
    }
}

/// The texts a list of answer records carries: one joined string per TXT
/// record, in record order; `None` where any piece of any TXT record is
/// not valid UTF-8.
pub open spec fn txts_of(answers: Seq<SpecRecord>) -> Option<Seq<Seq<char>>>
    decreases answers.len(),
{
    if answers.len() == 0 {
        Some(Seq::empty())
    } else {
        let rest = txts_of(answers.drop_last());
        match answers.last().data {
            SpecPayload::Txt(parts) => match (rest, txt_join(parts)) {
                (Some(ts), Some(t)) => Some(ts.push(t)),
                _ => None,
            },
            _ => rest,
        }
    }
}

proof fn lemma_txt_join_failure(parts: Seq<Seq<u8>>, j: int)
    requires
        0 <= j < parts.len(),
        utf8_of(parts[j]) is None,
    ensures
        txt_join(parts) is None,
    decreases parts.len(),
{
    if j < parts.len() - 1 {
        assert(parts.drop_last()[j] == parts[j]);
        lemma_txt_join_failure(parts.drop_last(), j);
    }
}

proof fn lemma_txts_of_failure(s: Seq<SpecRecord>, i: int)
    requires
        0 <= i < s.len(),
        s[i].data matches SpecPayload::Txt(parts) && txt_join(parts) is None,
    ensures
        txts_of(s) is None,
    decreases s.len(),
{
    if i < s.len() - 1 {
        assert(s.drop_last()[i] == s[i]);
        lemma_txts_of_failure(s.drop_last(), i);
    }
}

/// Collect the texts the answer records carry: one string per TXT record,
/// its character strings decoded as UTF-8 and joined, in record order; any
/// other record type is discarded silently.  Fails with [`Error::Utf8`]
/// where any piece of any TXT record is not valid UTF-8.
pub fn parse_txt(answers: &Vec<DnsRecord>) -> (r: Result<Vec<String>, Error>)
    ensures
        match r {
            Ok(v) => txts_of(records_view(answers@)) == Some(names_view(v@)),
            Err(e) => txts_of(records_view(answers@)) is None && e == Error::Utf8,
        },
{
    let ghost all = records_view(answers@);
    let mut group: Vec<String> = Vec::new();
    proof {
        assert(names_view(group@) =~= Seq::<Seq<char>>::empty());
        assert(txts_of(all.subrange(0, 0)) == Some(names_view(group@)));
    }
    let mut i: usize = 0;
    while i < answers.len()
        invariant
            all == records_view(answers@),
            0 <= i <= answers.len(),
            all.len() == answers.len(),
            txts_of(all.subrange(0, i as int)) == Some(names_view(group@)),
        decreases answers.len() - i,
    {
        proof {
            assert(all.subrange(0, i + 1).drop_last() =~= all.subrange(0, i as int));
            assert(all.subrange(0, i + 1).last() == all[i as int]);
            assert(all[i as int] == answers@[i as int]@);
        }
        match &answers[i].data {
            RecordPayload::Txt(parts) => {
                let ghost spec_parts = all[i as int].data->Txt_0;
                let mut text = String::new();
                proof {
                    assert(spec_parts =~= parts.deep_view());
                    assert(txt_join(spec_parts.subrange(0, 0)) == Some(text@));
                }
                let mut j: usize = 0;
                while j < parts.len()
                    invariant
                        all == records_view(answers@),
                        all.len() == answers.len(),
                        0 <= i < answers.len(),
                        all[i as int].data matches SpecPayload::Txt(p) && p == spec_parts,
                        spec_parts == parts.deep_view(),
                        0 <= j <= parts.len(),
                        spec_parts.len() == parts.len(),
                        txt_join(spec_parts.subrange(0, j as int)) == Some(text@),
                    decreases parts.len() - j,
                {
                    proof {
                        assert(spec_parts.subrange(0, j + 1).drop_last() =~= spec_parts.subrange(
                            0,
                            j as int,
                        ));
                        assert(spec_parts.subrange(0, j + 1).last() == spec_parts[j as int]);
                        assert(spec_parts[j as int] == parts@[j as int]@);
                    }
                    match utf8_string(&parts[j]) {
                        Some(piece) => {
                            text.append(piece.as_str());
                            proof {
                                assert(txt_join(spec_parts.subrange(0, j + 1)) == Some(text@));
                            }
                        },
                        None => {
                            proof {
                                lemma_txt_join_failure(spec_parts, j as int);
                                lemma_txts_of_failure(all, i as int);
                            }
                            return Err(Error::Utf8);
                        },
                    }
                    j = j + 1;
                }
                proof {
                    assert(spec_parts.subrange(0, parts@.len() as int) =~= spec_parts);
                }
                let ghost prev = group@;
                group.push(text);
                proof {
                    assert(names_view(group@) =~= names_view(prev).push(text@));
                }
            },
            _ => (),
        }
        i = i + 1;
    }
    proof {
        assert(all.subrange(0, answers@.len() as int) =~= all);
    }
    Ok(group)
}

/// Complete an address lookup from the response delivered for transaction
/// `id`, or from its absence.
///
/// `None` — the session closed before a response arrived — fails with
/// [`Error::LookupCanceled`] carrying the id.  A delivered packet that
/// decodes to no message fails with [`Error::Malformed`]; a message not
/// tagged as a response with [`Error::InvalidType`]; a response code other
/// than no-error with [`Error::ServerError`] carrying that code.  Otherwise
/// the answers' addresses are returned, in record order.  Nothing here
/// touches the session: other pending transactions are unaffected.
pub fn finish_lookup_addrs(id: u16, resp: Option<Vec<u8>>) -> (r: Result<Vec<IpAddress>, Error>)
    ensures
        match resp {
            None => r == Err::<Vec<IpAddress>, Error>(Error::LookupCanceled(id)),
            Some(b) => match wire_header(b@) {
                None => r == Err::<Vec<IpAddress>, Error>(Error::Malformed),
                Some((_mid, is_response, rcode)) => if !is_response {
                    r == Err::<Vec<IpAddress>, Error>(Error::InvalidType)
                } else if rcode != 0 {
                    r == Err::<Vec<IpAddress>, Error>(Error::ServerError(rcode))
                } else {
                    match wire_answers(b@) {
                        Some(ans) => r is Ok && r->Ok_0@ == addrs_of(ans),
                        None => r == Err::<Vec<IpAddress>, Error>(Error::Malformed),
                    }
                },
            },
        },
{
    let buf = match resp {
        Some(b) => b,
        None => {
            return Err(Error::LookupCanceled(id));
        },
    };
    let (_mid, is_response, rcode) = match parse_header(&buf) {
        Some(h) => h,
        None => {
            return Err(Error::Malformed);
        },
    };
    if !is_response {
        return Err(Error::InvalidType);
    }
    if rcode != 0 {
        return Err(Error::ServerError(rcode));
    }
    match parse_answers(&buf) {
        Some(records) => Ok(parse_ip_addrs(&records)),
        None => Err(Error::Malformed),
    }
}

/// Complete a text lookup from the response delivered for transaction
/// `id`, or from its absence.
///
/// The failure cases are those of [`finish_lookup_addrs`], plus
/// [`Error::Utf8`] where a TXT record holds bytes that are not valid
/// UTF-8.  Otherwise one joined string per TXT answer record is returned,
/// in record order.
pub fn finish_lookup_txt(id: u16, resp: Option<Vec<u8>>) -> (r: Result<Vec<String>, Error>)
    ensures
        match resp {
            None => r == Err::<Vec<String>, Error>(Error::LookupCanceled(id)),
            Some(b) => match wire_header(b@) {
                None => r == Err::<Vec<String>, Error>(Error::Malformed),
                Some((_mid, is_response, rcode)) => if !is_response {
                    r == Err::<Vec<String>, Error>(Error::InvalidType)
                } else if rcode != 0 {
                    r == Err::<Vec<String>, Error>(Error::ServerError(rcode))
                } else {
                    match wire_answers(b@) {
                        Some(ans) => match r {
                            Ok(v) => txts_of(ans) == Some(names_view(v@)),
                            Err(e) => txts_of(ans) is None && e == Error::Utf8,
                        },
                        None => r == Err::<Vec<String>, Error>(Error::Malformed),
                    }
                },
            },
        },
{
    let buf = match resp {
        Some(b) => b,
        None => {
            return Err(Error::LookupCanceled(id));
        },
    };
    let (_mid, is_response, rcode) = match parse_header(&buf) {
        Some(h) => h,
        None => {
            return Err(Error::Malformed);
        },
    };
    if !is_response {
        return Err(Error::InvalidType);
    }
    if rcode != 0 {
        return Err(Error::ServerError(rcode));
    }
    match parse_answers(&buf) {
        Some(records) => parse_txt(&records),
        None => Err(Error::Malformed),
    }
}

/// The v4 addresses among a list, in order.
pub open spec fn v4s_of(addrs: Seq<IpAddress>) -> Seq<u32>
    decreases addrs.len(),
{
    if addrs.len() == 0 {
        Seq::empty()
    } else {
        v4s_of(addrs.drop_last()) + (match addrs.last() {
            IpAddress::V4(a) => seq![a],
            _ => Seq::empty(),
        })
    }
}

/// The v6 addresses among a list, in order.
pub open spec fn v6s_of(addrs: Seq<IpAddress>) -> Seq<u128>
    decreases addrs.len(),
{
    if addrs.len() == 0 {
        Seq::empty()
    } else {
        v6s_of(addrs.drop_last()) + (match addrs.last() {
            IpAddress::V6(a) => seq![a],
            _ => Seq::empty(),
        })
    }
}

/// Keep the v4 addresses, in order: the tail of a v4-only lookup, which
/// discards any v6 address a response smuggled in.
pub fn filter_ipv4(addrs: &Vec<IpAddress>) -> (r: Vec<u32>)
    ensures
        r@ == v4s_of(addrs@),
{
    let mut group: Vec<u32> = Vec::new();
    proof {
        assert(group@ =~= v4s_of(addrs@.subrange(0, 0)));
    }
    let mut i: usize = 0;
    while i < addrs.len()
        invariant
            0 <= i <= addrs.len(),
            group@ == v4s_of(addrs@.subrange(0, i as int)),
        decreases addrs.len() - i,
    {
        proof {
            assert(addrs@.subrange(0, i + 1).drop_last() =~= addrs@.subrange(0, i as int));
            assert(addrs@.subrange(0, i + 1).last() == addrs@[i as int]);
        }
        match addrs[i] {
            IpAddress::V4(a) => group.push(a),
            _ => (),
        }
        proof {
            assert(group@ =~= v4s_of(addrs@.subrange(0, i + 1)));
        }
        i = i + 1;
    }
    proof {
        assert(addrs@.subrange(0, addrs@.len() as int) =~= addrs@);
    }
    group
}

/// Keep the v6 addresses, in order: the tail of a v6-only lookup.
pub fn filter_ipv6(addrs: &Vec<IpAddress>) -> (r: Vec<u128>)
    ensures
        r@ == v6s_of(addrs@),
{
    let mut group: Vec<u128> = Vec::new();
    proof {
        assert(group@ =~= v6s_of(addrs@.subrange(0, 0)));
    }
    let mut i: usize = 0;
    while i < addrs.len()
        invariant
            0 <= i <= addrs.len(),
            group@ == v6s_of(addrs@.subrange(0, i as int)),
        decreases addrs.len() - i,
    {
        proof {
            assert(addrs@.subrange(0, i + 1).drop_last() =~= addrs@.subrange(0, i as int));
            assert(addrs@.subrange(0, i + 1).last() == addrs@[i as int]);
        }
        match addrs[i] {
            IpAddress::V6(a) => group.push(a),
            _ => (),
        }
        proof {
            assert(group@ =~= v6s_of(addrs@.subrange(0, i + 1)));
        }
        i = i + 1;
    }
    proof {
        assert(addrs@.subrange(0, addrs@.len() as int) =~= addrs@);
    }
    group
}

/// Join the two halves of a combined lookup: the v6 results precede the
/// v4 results.
pub fn combine_lookup_ip(v6: Vec<IpAddress>, v4: Vec<IpAddress>) -> (r: Vec<IpAddress>)
    ensures
        r@ == v6@ + v4@,
{
    let mut all = v6;
    let mut rest = v4;
    all.append(&mut rest);
    all
}

/// What [`DnsLookupNetwork::close`] does: the closed flag is set and every
/// other observable is left alone.
pub open spec fn close_rel(a: DnsLookupNetwork, b: DnsLookupNetwork) -> bool {
    &&& b.is_closed_spec()
    &&& b.next_id() == a.next_id()
    &&& b.outbound() == a.outbound()
    &&& b.buffered() == a.buffered()
}

/// Law (close is idempotent): closing an already-closed session changes no
/// observable — the second close finds every observable where the first
/// left it.
pub proof fn lemma_close_idempotent(
    s0: DnsLookupNetwork,
    s1: DnsLookupNetwork,
    s2: DnsLookupNetwork,
)
    requires
        close_rel(s0, s1),
        close_rel(s1, s2),
    ensures
        s2.is_closed_spec() == s1.is_closed_spec(),
        s2.next_id() == s1.next_id(),
        s2.outbound() == s1.outbound(),
        s2.buffered() == s1.buffered(),
{
}

/// The step a delivered packet makes on the response buffer: the packet is
/// filed under the id its header carries.
pub open spec fn recv_step(buffered: Map<u16, Seq<u8>>, b: Seq<u8>) -> Map<u16, Seq<u8>> {
    buffered.insert(header_id(b), b)
}

/// Law (independent correlation): two pending transactions with distinct
/// ids receive their own responses, whatever order the responses arrive
/// in.  Delivering both packets files each under its own id — and the two
/// arrival orders leave the buffer in the same state, so a lookup that
/// consumes the response under its id cannot observe the other's.
pub proof fn lemma_recv_correlation(buffered: Map<u16, Seq<u8>>, b1: Seq<u8>, b2: Seq<u8>)
    requires
        header_id(b1) != header_id(b2),
    ensures
        recv_step(recv_step(buffered, b1), b2)[header_id(b1)] == b1,
        recv_step(recv_step(buffered, b1), b2)[header_id(b2)] == b2,
        recv_step(recv_step(buffered, b1), b2) == recv_step(recv_step(buffered, b2), b1),
{
    assert(recv_step(recv_step(buffered, b1), b2) =~= recv_step(recv_step(buffered, b2), b1));
}

} // verus!
