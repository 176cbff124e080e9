//! The keyed future multiplexer: FIFO fairness, wake-up bookkeeping, and
//! the overwrite-wins policy.

use futures_dns::mux::FuturesUnorderedMap;

#[test]
fn test_insert_then_poll_yields_key() {
    let mut map = FuturesUnorderedMap::new();
    let (ticket, wake) = map.insert(1);
    assert!(!wake);
    assert_eq!(map.poll_next(), Some((1, ticket)));
    // The entry left the map for good: nothing else is ready.
    assert_eq!(map.poll_next(), None);
}

#[test]
fn test_fifo_order_distinct_keys() {
    let mut map = FuturesUnorderedMap::new();
    let (t10, _) = map.insert(10);
    let (t20, _) = map.insert(20);
    let (t30, _) = map.insert(30);
    assert_eq!(map.poll_next(), Some((10, t10)));
    assert_eq!(map.poll_next(), Some((20, t20)));
    assert_eq!(map.poll_next(), Some((30, t30)));
    assert_eq!(map.poll_next(), None);
}

#[test]
fn test_map() {
    // One key, first a computation that never completes, then a second one
    // under the same key: only the second is ever observed.
    let mut map = FuturesUnorderedMap::new();
    let (t1, _) = map.insert(1);

    // The driver polls the pending computation and hands it back.
    assert_eq!(map.poll_next(), Some((1, t1)));
    assert!(map.reinsert(1, t1));
    assert_eq!(map.poll_next(), None);

    // Overwrite: a fresh ticket replaces the pending computation.
    let (t2, woke) = map.insert(1);
    assert!(woke); // the outer task was suspended and must be woken
    assert_ne!(t1, t2);
    assert_eq!(map.poll_next(), Some((1, t2)));
}

#[test]
fn test_reinsert_after_overwrite_is_stale() {
    let mut map = FuturesUnorderedMap::new();
    let (t1, _) = map.insert(7);
    assert_eq!(map.poll_next(), Some((7, t1)));
    // While the old computation is being polled, a new one arrives.
    let (t2, _) = map.insert(7);
    // Handing the old one back reports it stale and drops it.
    assert!(!map.reinsert(7, t1));
    assert_eq!(map.poll_next(), Some((7, t2)));
}

#[test]
fn test_wake_requeues_key() {
    let mut map = FuturesUnorderedMap::new();
    let (t, _) = map.insert(3);
    assert_eq!(map.poll_next(), Some((3, t)));
    assert!(map.reinsert(3, t));
    assert_eq!(map.poll_next(), None);
    // The computation's own waker fires: the key is ready again and the
    // outer task must be woken.
    assert!(map.wake(3));
    // A second fire finds no registered outer waker.
    assert!(!map.wake(3));
    assert_eq!(map.poll_next(), Some((3, t)));
    // The second queue entry is dead by then.
    assert_eq!(map.poll_next(), None);
}

#[test]
fn test_dead_queue_entries_are_skipped() {
    let mut map = FuturesUnorderedMap::new();
    let (_t1, _) = map.insert(1);
    let (t2, _) = map.insert(2);
    // Overwriting key 1 queues it a second time; the first completion
    // consumes the live entry, the leftover queue slot is skipped.
    let (t1b, _) = map.insert(1);
    assert_eq!(map.poll_next(), Some((1, t1b)));
    assert_eq!(map.poll_next(), Some((2, t2)));
    assert_eq!(map.poll_next(), None);
}
