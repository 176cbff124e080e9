//! A keyed future multiplexer: the bookkeeping that drives many independent
//! asynchronous computations to completion through one poll entry point.
//!
//! The map stores, for every key, at most one pending computation,
//! identified by a *ticket* — a number issued once and never reissued, which
//! stands for the one future inserted at that moment.  A FIFO ready queue
//! holds the keys that asked to be polled.  The driving shell owns the
//! futures themselves, keyed by ticket: it calls [`FuturesUnorderedMap::poll_next`]
//! to learn which future to poll next, polls it, and either keeps the
//! completion (the entry is already gone) or hands the future back with
//! [`FuturesUnorderedMap::reinsert`].  A future's own waker calls
//! [`FuturesUnorderedMap::wake`] with its key.

use vstd::prelude::*;
use std::collections::HashMap;
use std::collections::VecDeque;

verus! {

broadcast use vstd::std_specs::hash::group_hash_axioms;

/// The keys a state would yield, in order, if it were polled until its ready
/// queue ran dry and no pending future made progress: the first queued key
/// that is live is yielded with its ticket and leaves the map, and a queued
/// key that is no longer live is skipped.
pub open spec fn drain(live: Map<u64, u64>, ready: Seq<u64>) -> Seq<(u64, u64)>
    decreases ready.len(),
{
    if ready.len() == 0 {
        Seq::empty()
    } else {
        let k = ready[0];
        if live.contains_key(k) {
            seq![(k, live[k])] + drain(live.remove(k), ready.skip(1))
        } else {
            drain(live, ready.skip(1))
        }
    }
}

/// The position of the first queued key that is live, or `-1` if none is.
pub open spec fn first_live(ready: Seq<u64>, live: Map<u64, u64>) -> int
    decreases ready.len(),
{
    if ready.len() == 0 {
        -1
    } else if live.contains_key(ready[0]) {
        0
    } else {
        let rest = first_live(ready.skip(1), live);
        if rest == -1 {
            -1
        } else {
            1 + rest
        }
    }
}

/// Tickets are sound against a bound: every live ticket was issued below the
/// bound, and no two keys hold the same ticket.
pub open spec fn tickets_wf(live: Map<u64, u64>, bound: u64) -> bool {
    &&& forall|k: u64| live.contains_key(k) ==> live[k] < bound
    &&& forall|k1: u64, k2: u64|
        live.contains_key(k1) && live.contains_key(k2) && k1 != k2 ==> live[k1] != live[k2]
}

/// A waitable map of keyed pending computations.
pub struct FuturesUnorderedMap {
    /// The pending computations: key to ticket.
    futs: HashMap<u64, u64>,
    /// The keys marked ready for polling, oldest first.
    ready: VecDeque<u64>,
    /// Whether the outer task's waker is registered.
    waker: bool,
    /// The next ticket to issue.
    next_ticket: u64,
}

impl FuturesUnorderedMap {
    /// The pending computations: which keys are live, and under which ticket.
    pub closed spec fn live(self) -> Map<u64, u64> {
        self.futs@
    }

    /// The keys marked ready for polling, oldest first.
    pub closed spec fn ready_keys(self) -> Seq<u64> {
        self.ready@
    }

    /// Whether the outer task's waker is registered.
    pub closed spec fn waker_registered(self) -> bool {
        self.waker
    }

    /// The bound below which every ticket so far was issued.
    pub closed spec fn ticket_bound(self) -> u64 {
        self.next_ticket
    }

    /// Well-formedness: tickets are sound against the bound.
    pub open spec fn wf(self) -> bool {
        tickets_wf(self.live(), self.ticket_bound())
    }

    /// Create an empty map.
    pub fn new() -> (r: Self)
        ensures
            r.wf(),
            r.live() == Map::<u64, u64>::empty(),
            r.ready_keys() == Seq::<u64>::empty(),
            !r.waker_registered(),
            r.ticket_bound() == 0,
    {
        FuturesUnorderedMap {
            futs: HashMap::new(),
            ready: VecDeque::new(),
            waker: false,
            next_ticket: 0,
        }
    }

    /// Whether another ticket can still be issued.  Tickets are drawn from
    /// a 64-bit space and never reused, so this is exhausted by nothing
    /// short of two-to-the-sixty-four inserts; a driver checks it before
    /// each insert all the same.
    pub fn ticket_space_left(&self) -> (r: bool)
        ensures
            r == (self.ticket_bound() < u64::MAX),
    {
        self.next_ticket < u64::MAX
    }

    /// Register a pending computation under `key` and mark the key ready.
    ///
    /// The computation receives a fresh ticket, returned along with whether
    /// the outer waker was taken — the caller must then wake the outer task.
    /// A computation already live under `key` is discarded: its ticket
    /// leaves the map, and is never issued again.
    pub fn insert(&mut self, key: u64) -> (r: (u64, bool))
        requires
            old(self).wf(),
            old(self).ticket_bound() < u64::MAX,
        ensures
            final(self).wf(),
            r.0 == old(self).ticket_bound(),
            r.1 == old(self).waker_registered(),
            final(self).live() == old(self).live().insert(key, r.0),
            final(self).ready_keys() == old(self).ready_keys().push(key),
            !final(self).waker_registered(),
            final(self).ticket_bound() == old(self).ticket_bound() + 1,
    {
        self.ready.push_back(key);
        let ticket: u64 = self.next_ticket;
        self.next_ticket = self.next_ticket + 1;
        self.futs.insert(key, ticket);
        let woke = self.waker;
        self.waker = false;
        (ticket, woke)
    }

    /// Register the outer waker and pop the next computation to poll.
    ///
    /// Keys are taken from the ready queue oldest first; a key that is no
    /// longer live is skipped.  The first live key leaves both the queue and
    /// the map — the caller polls its future and, if the future is not yet
    /// ready, hands it back with [`Self::reinsert`].  `None` means nothing
    /// is ready: the caller suspends until [`Self::wake`] or
    /// [`Self::insert`] reports that the outer task must be woken.
    pub fn poll_next(&mut self) -> (r: Option<(u64, u64)>)
        requires
            old(self).wf(),
        ensures
            final(self).wf(),
            final(self).waker_registered(),
            final(self).ticket_bound() == old(self).ticket_bound(),
            ({
                let i = first_live(old(self).ready_keys(), old(self).live());
                if i == -1 {
                    &&& r is None
                    &&& final(self).ready_keys() == Seq::<u64>::empty()
                    &&& final(self).live() == old(self).live()
                } else {
                    let k = old(self).ready_keys()[i];
                    &&& r == Some((k, old(self).live()[k]))
                    &&& final(self).ready_keys() == old(self).ready_keys().skip(i + 1)
                    &&& final(self).live() == old(self).live().remove(k)
                }
            }),
    {
        self.waker = true;
        let ghost orig_ready = self.ready@;
        let ghost live = self.futs@;
        let ghost mut popped: int = 0;
        loop
            invariant
                live == old(self).live(),
                orig_ready == old(self).ready_keys(),
                self.futs@ == live,
                self.waker,
                self.wf(),
                self.next_ticket == old(self).next_ticket,
                0 <= popped <= orig_ready.len(),
                self.ready@ == orig_ready.skip(popped),
                forall|j: int| 0 <= j < popped ==> !live.contains_key(orig_ready[j]),
            decreases self.ready@.len(),
        {
            let key = match self.ready.pop_front() {
                Some(key) => key,
                None => {
                    proof {
                        assert(orig_ready.skip(popped).len() == 0);
                        lemma_first_live_of_dead_prefix(orig_ready, live, popped);
                        assert(first_live(orig_ready, live) == -1);
                        assert(self.ready@ =~= Seq::<u64>::empty());
                    }
                    return None;
                },
            };
            match self.futs.remove(&key) {
                Some(ticket) => {
                    proof {
                        let cur = orig_ready.skip(popped);
                        assert(cur[0] == key);
                        assert(live.contains_key(key) && live[key] == ticket);
                        assert(first_live(cur, live) == 0);
                        lemma_first_live_of_dead_prefix(orig_ready, live, popped);
                        assert(first_live(orig_ready, live) == popped);
                        assert(orig_ready[popped] == key);
                        assert(self.ready@ =~= orig_ready.skip(popped + 1));
                    }
                    return Some((key, ticket));
                },
                None => {
                    proof {
                        assert(orig_ready.skip(popped).skip(1) =~= orig_ready.skip(popped + 1));
                        popped = popped + 1;
                    }
                },
            }
        }
    }

    /// Hand a computation that was popped by [`Self::poll_next`] and is not
    /// yet ready back to the map, without re-queueing its key.
    ///
    /// A key that became live again in the meantime — a newer computation
    /// was inserted under it — keeps the newer one; the handed-back ticket
    /// is then stale and is dropped, which the result reports.
    pub fn reinsert(&mut self, key: u64, ticket: u64) -> (r: bool)
        requires
            old(self).wf(),
            ticket < old(self).ticket_bound(),
            forall|k: u64|
                old(self).live().contains_key(k) ==> old(self).live()[k] != ticket,
        ensures
            final(self).wf(),
            r == !old(self).live().contains_key(key),
            r ==> final(self).live() == old(self).live().insert(key, ticket),
            !r ==> final(self).live() == old(self).live(),
            final(self).ready_keys() == old(self).ready_keys(),
            final(self).waker_registered() == old(self).waker_registered(),
            final(self).ticket_bound() == old(self).ticket_bound(),
    {
        if self.futs.contains_key(&key) {
            false
        } else {
            self.futs.insert(key, ticket);
            true
        }
    }

    /// A pending computation's own waker fired for `key`: mark the key ready
    /// again and take the outer waker.  Returns whether the outer task must
    /// be woken.
    pub fn wake(&mut self, key: u64) -> (r: bool)
        requires
            old(self).wf(),
        ensures
            final(self).wf(),
            r == old(self).waker_registered(),
            final(self).ready_keys() == old(self).ready_keys().push(key),
            final(self).live() == old(self).live(),
            !final(self).waker_registered(),
            final(self).ticket_bound() == old(self).ticket_bound(),
    {
        self.ready.push_back(key);
        let woke = self.waker;
        self.waker = false;
        woke
    }
}

/// One poll step follows the drain: a state yields nothing exactly when
/// its drain is empty, and otherwise [`FuturesUnorderedMap::poll_next`]'s
/// contract — return the first live queued key and remove it — returns
/// the drain's first element and leaves a state that drains to the rest.
pub proof fn lemma_poll_step_follows_drain(live: Map<u64, u64>, ready: Seq<u64>)
    ensures
        first_live(ready, live) == -1 <==> drain(live, ready).len() == 0,
        first_live(ready, live) >= 0 ==> {
            let k = ready[first_live(ready, live)];
            drain(live, ready) == seq![(k, live[k])] + drain(
                live.remove(k),
                ready.skip(first_live(ready, live) + 1),
            )
        },
    decreases ready.len(),
{
    if ready.len() > 0 && !live.contains_key(ready[0]) {
        lemma_poll_step_follows_drain(live, ready.skip(1));
        lemma_first_live_bounds(ready.skip(1), live);
        let i = first_live(ready, live);
        if i >= 0 {
            assert(first_live(ready.skip(1), live) == i - 1);
            assert(ready.skip(1)[i - 1] == ready[i]);
            assert(ready.skip(1).skip(i) =~= ready.skip(i + 1));
        }
    } else if ready.len() > 0 {
        assert(ready.skip(1) =~= ready.subrange(1, ready.len() as int));
    }
}

/// Every pair a drain yields is a pending one: its key is live and is
/// paired with exactly the ticket it is live under.
pub proof fn lemma_drain_yields_live(live: Map<u64, u64>, ready: Seq<u64>)
    ensures
        forall|i: int|
            0 <= i < drain(live, ready).len() ==> {
                let p = #[trigger] drain(live, ready)[i];
                live.contains_key(p.0) && p.1 == live[p.0]
            },
    decreases ready.len(),
{
    if ready.len() > 0 {
        let k = ready[0];
        if live.contains_key(k) {
            lemma_drain_yields_live(live.remove(k), ready.skip(1));
            assert forall|i: int| 0 <= i < drain(live, ready).len() implies {
                let p = #[trigger] drain(live, ready)[i];
                live.contains_key(p.0) && p.1 == live[p.0]
            } by {
                if i > 0 {
                    let rest = drain(live.remove(k), ready.skip(1));
                    assert(drain(live, ready)[i] == rest[i - 1]);
                }
            }
        } else {
            lemma_drain_yields_live(live, ready.skip(1));
            assert forall|i: int| 0 <= i < drain(live, ready).len() implies {
                let p = #[trigger] drain(live, ready)[i];
                live.contains_key(p.0) && p.1 == live[p.0]
            } by {
                assert(drain(live, ready)[i] == drain(live, ready.skip(1))[i]);
            }
        }
    }
}

/// Law (round-robin completeness): from a state where the pending keys are
/// exactly the queued keys, each queued once — the state a sequence of
/// inserts under distinct keys leaves behind — draining yields every pending
/// computation exactly once, in queue order, each paired with its ticket.
pub proof fn lemma_drain_all_queued_once(live: Map<u64, u64>, ready: Seq<u64>)
    requires
        ready.no_duplicates(),
        forall|k: u64| #[trigger] live.contains_key(k) <==> ready.contains(k),
    ensures
        drain(live, ready).len() == ready.len(),
        forall|i: int|
            0 <= i < ready.len() ==> drain(live, ready)[i] == (ready[i], live[ready[i]]),
    decreases ready.len(),
{
    if ready.len() > 0 {
        let k = ready[0];
        assert(ready.contains(k));
        let rest = ready.skip(1);
        assert(rest.no_duplicates()) by {
            assert forall|i: int, j: int|
                0 <= i < rest.len() && 0 <= j < rest.len() && i != j implies rest[i] != rest[j] by {
                assert(rest[i] == ready[i + 1] && rest[j] == ready[j + 1]);
            }
        }
        assert forall|k2: u64| #[trigger] live.remove(k).contains_key(k2) <==> rest.contains(
            k2,
        ) by {
            if live.remove(k).contains_key(k2) {
                let i = choose|i: int| 0 <= i < ready.len() && ready[i] == k2;
                assert(rest[i - 1] == k2);
            }
            if rest.contains(k2) {
                let j = choose|j: int| 0 <= j < rest.len() && rest[j] == k2;
                assert(ready[j + 1] == k2);
                assert(k2 != k);
            }
        }
        lemma_drain_all_queued_once(live.remove(k), rest);
        assert forall|i: int|
            0 <= i < ready.len() implies drain(live, ready)[i] == (
            ready[i],
            live[ready[i]],
        ) by {
            if i > 0 {
                let drained = drain(live.remove(k), rest);
                assert(drain(live, ready)[i] == drained[i - 1]);
                assert(drained[i - 1] == (rest[i - 1], live.remove(k)[rest[i - 1]]));
                assert(rest[i - 1] == ready[i]);
                assert(ready[i] != k);
            }
        }
    }
}

/// Inserting under a key that is not yet queued keeps the pending keys and
/// the queued keys in one-to-one correspondence.
pub proof fn lemma_insert_keeps_coverage(live: Map<u64, u64>, ready: Seq<u64>, k: u64, t: u64)
    requires
        ready.no_duplicates(),
        forall|k2: u64| #[trigger] live.contains_key(k2) <==> ready.contains(k2),
        !ready.contains(k),
    ensures
        ready.push(k).no_duplicates(),
        forall|k2: u64| #[trigger] live.insert(k, t).contains_key(k2) <==> ready.push(k).contains(
            k2,
        ),
{
    assert forall|k2: u64| #[trigger] live.insert(k, t).contains_key(k2) <==> ready.push(
        k,
    ).contains(k2) by {
        if live.insert(k, t).contains_key(k2) {
            if k2 == k {
                assert(ready.push(k)[ready.len() as int] == k);
            } else {
                let i = choose|i: int| 0 <= i < ready.len() && ready[i] == k2;
                assert(ready.push(k)[i] == k2);
            }
        }
        if ready.push(k).contains(k2) {
            let j = choose|j: int| 0 <= j < ready.push(k).len() && ready.push(k)[j] == k2;
            if j < ready.len() {
                assert(ready[j] == k2);
            }
        }
    }
}

/// Law (overwrite wins): registering a new computation under a key that
/// already holds a pending one discards the pending one for good.  The new
/// computation carries the fresh ticket `bound`, so afterwards no key holds
/// the discarded ticket, and no drain — whatever the ready queue holds —
/// ever yields the discarded pair.
pub proof fn lemma_overwrite_discards(live: Map<u64, u64>, bound: u64, k: u64, ready: Seq<u64>)
    requires
        tickets_wf(live, bound),
        live.contains_key(k),
    ensures
        forall|k2: u64| #[trigger] live.insert(k, bound).contains_key(k2) ==> live.insert(
            k,
            bound,
        )[k2] != live[k],
        forall|i: int|
            0 <= i < drain(live.insert(k, bound), ready).len() ==> #[trigger] drain(
                live.insert(k, bound),
                ready,
            )[i] != (k, live[k]),
{
    let live2 = live.insert(k, bound);
    assert forall|k2: u64| #[trigger] live2.contains_key(k2) implies live2[k2] != live[k] by {
        if k2 == k {
            assert(live2[k2] == bound && live[k] < bound);
        }
    }
    lemma_drain_yields_live(live2, ready);
    assert forall|i: int|
        0 <= i < drain(live2, ready).len() implies #[trigger] drain(live2, ready)[i] != (
        k,
        live[k],
    ) by {
        let p = drain(live2, ready)[i];
        assert(live2.contains_key(p.0) && p.1 == live2[p.0]);
    }
}

/// The first-live position is `-1` or a position of a live key in the queue.
pub proof fn lemma_first_live_bounds(ready: Seq<u64>, live: Map<u64, u64>)
    ensures
        -1 <= first_live(ready, live) < ready.len(),
        first_live(ready, live) >= 0 ==> live.contains_key(ready[first_live(ready, live)]),
    decreases ready.len(),
{
    if ready.len() > 0 && !live.contains_key(ready[0]) {
        lemma_first_live_bounds(ready.skip(1), live);
    }
}

/// If the first `i` queued keys are dead, the first live key of the whole
/// queue is the first live key of the rest, shifted by `i`.
proof fn lemma_first_live_of_dead_prefix(ready: Seq<u64>, live: Map<u64, u64>, i: int)
    requires
        0 <= i <= ready.len(),
        forall|j: int| 0 <= j < i ==> !live.contains_key(ready[j]),
    ensures
        first_live(ready, live) == ({
            let rest = first_live(ready.skip(i), live);
            if rest == -1 {
                -1
            } else {
                i + rest
            }
        }),
    decreases i,
{
    lemma_first_live_bounds(ready.skip(i), live);
    if i > 0 {
        assert(!live.contains_key(ready[0]));
        assert forall|j: int| 0 <= j < i - 1 implies !live.contains_key(ready.skip(1)[j]) by {
            assert(ready.skip(1)[j] == ready[j + 1]);
        }
        lemma_first_live_of_dead_prefix(ready.skip(1), live, i - 1);
        assert(ready.skip(1).skip(i - 1) =~= ready.skip(i));
    } else {
        assert(ready.skip(0) =~= ready);
    }
}

} // verus!
