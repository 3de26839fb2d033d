use std::sync::atomic::{AtomicUsize, Ordering};
use std::sync::Arc;

use wait_queue::select::{CaseId, SelectionContext};
use wait_queue::waker::Waker;

const WAITING: usize = 0;
const ABORTED: usize = 1;

/// A selection context that records what happened to it.
struct Ctx {
    thread: u64,
    state: AtomicUsize,
    packet: AtomicUsize,
    unparks: AtomicUsize,
}

impl Ctx {
    fn new(thread: u64) -> Arc<Ctx> {
        Arc::new(Ctx {
            thread,
            state: AtomicUsize::new(WAITING),
            packet: AtomicUsize::new(0),
            unparks: AtomicUsize::new(0),
        })
    }

    fn state(&self) -> usize {
        self.state.load(Ordering::SeqCst)
    }

    fn unparks(&self) -> usize {
        self.unparks.load(Ordering::SeqCst)
    }
}

impl SelectionContext for Ctx {
    fn thread_id(&self) -> u64 {
        self.thread
    }

    fn try_select(&self, case_id: CaseId, packet: usize) -> bool {
        let won = self
            .state
            .compare_exchange(WAITING, case_id.id + 2, Ordering::SeqCst, Ordering::SeqCst)
            .is_ok();
        if won {
            self.packet.store(packet, Ordering::SeqCst);
        }
        won
    }

    fn try_abort(&self) -> bool {
        self.state
            .compare_exchange(WAITING, ABORTED, Ordering::SeqCst, Ordering::SeqCst)
            .is_ok()
    }

    fn unpark(&self) {
        self.unparks.fetch_add(1, Ordering::SeqCst);
    }
}

#[test]
fn new_queue_is_empty() {
    let q: Waker<Ctx> = Waker::new();
    assert_eq!(q.len(), 0);
    assert!(q.is_empty());
    assert!(!q.can_notify(1));
    assert!(q.wake_one(1).is_none());
    assert!(q.unregister(CaseId::new(1)).is_none());
    q.abort_all();
    assert!(q.is_empty());
}

#[test]
fn register_uses_zero_packet() {
    let q: Waker<Ctx> = Waker::new();
    let a = Ctx::new(1);
    q.register(a.clone(), CaseId::new(7));
    let case = q.unregister(CaseId::new(7)).unwrap();
    assert_eq!(case.packet, 0);
    assert_eq!(case.case_id, CaseId::new(7));
    assert_eq!(case.thread_id, 1);
    assert!(Arc::ptr_eq(&case.context, &a));
    assert!(q.is_empty());
}

#[test]
fn two_waiters_are_woken_in_fifo_order() {
    let q: Waker<Ctx> = Waker::new();
    let a = Ctx::new(1);
    let b = Ctx::new(2);
    q.register_with_packet(a.clone(), CaseId::new(1), 100);
    q.register_with_packet(b.clone(), CaseId::new(2), 200);

    let first = q.wake_one(3).unwrap();
    assert_eq!(first.case_id, CaseId::new(1));
    assert_eq!(first.packet, 100);
    assert_eq!(first.thread_id, 1);
    assert!(Arc::ptr_eq(&first.context, &a));

    let second = q.wake_one(3).unwrap();
    assert_eq!(second.case_id, CaseId::new(2));
    assert_eq!(second.packet, 200);
    assert_eq!(second.thread_id, 2);
    assert!(Arc::ptr_eq(&second.context, &b));

    assert!(q.wake_one(3).is_none());
    assert_eq!(a.unparks(), 1);
    assert_eq!(b.unparks(), 1);
    assert_eq!(a.state(), 1 + 2);
    assert_eq!(b.state(), 2 + 2);
    assert_eq!(a.packet.load(Ordering::SeqCst), 100);
    assert_eq!(b.packet.load(Ordering::SeqCst), 200);
    assert!(q.is_empty());
}

#[test]
fn length_follows_registrations_and_removals() {
    let q: Waker<Ctx> = Waker::new();
    let a = Ctx::new(1);
    let mut expected = 0;
    for id in 0..10 {
        q.register(a.clone(), CaseId::new(id));
        expected += 1;
        assert_eq!(q.len(), expected);
    }
    for id in [3, 0, 9, 5] {
        assert!(q.unregister(CaseId::new(id)).is_some());
        expected -= 1;
        assert_eq!(q.len(), expected);
    }
    assert!(q.unregister(CaseId::new(3)).is_none());
    assert_eq!(q.len(), expected);
    q.register(a.clone(), CaseId::new(3));
    assert_eq!(q.len(), 7);
    let claimed = q.wake_one(2).unwrap();
    assert_eq!(claimed.case_id, CaseId::new(1));
    assert_eq!(q.len(), 6);
    q.abort_all();
    assert_eq!(q.len(), 0);
}

#[test]
fn a_context_in_many_queues_is_claimed_once() {
    let queues: Vec<Waker<Ctx>> = vec![Waker::new(), Waker::new(), Waker::new(), Waker::new()];
    let a = Ctx::new(1);
    for (k, q) in queues.iter().enumerate() {
        q.register_with_packet(a.clone(), CaseId::new(k + 10), k);
    }
    let mut wins = 0;
    for (k, q) in queues.iter().enumerate() {
        if let Some(case) = q.wake_one(100 + k as u64) {
            wins += 1;
            assert_eq!(case.case_id, CaseId::new(10));
        }
    }
    assert_eq!(wins, 1);
    assert_eq!(a.unparks(), 1);
    assert_eq!(a.state(), 10 + 2);
    // The registrations that lost stay queued until their owner takes them back.
    assert_eq!(queues[0].len(), 0);
    for (k, q) in queues.iter().enumerate().skip(1) {
        assert_eq!(q.len(), 1);
        assert!(q.unregister(CaseId::new(k + 10)).is_some());
    }
}

#[test]
fn wake_one_never_claims_the_callers_own_case() {
    let q: Waker<Ctx> = Waker::new();
    let a = Ctx::new(1);
    q.register(a.clone(), CaseId::new(1));
    assert!(q.wake_one(1).is_none());
    assert_eq!(q.len(), 1);
    assert_eq!(a.state(), WAITING);
    assert_eq!(a.unparks(), 0);

    let b = Ctx::new(2);
    q.register_with_packet(b.clone(), CaseId::new(2), 9);
    let case = q.wake_one(1).unwrap();
    assert_eq!(case.thread_id, 2);
    assert_eq!(case.case_id, CaseId::new(2));
    assert_eq!(case.packet, 9);
    assert_eq!(q.len(), 1);
    assert_eq!(a.state(), WAITING);
    assert!(q.unregister(CaseId::new(1)).is_some());
}

#[test]
fn wake_one_skips_a_context_claimed_elsewhere() {
    let q: Waker<Ctx> = Waker::new();
    let a = Ctx::new(1);
    let b = Ctx::new(2);
    q.register(a.clone(), CaseId::new(1));
    q.register(b.clone(), CaseId::new(2));
    assert!(a.try_select(CaseId::new(50), 0));
    let case = q.wake_one(3).unwrap();
    assert_eq!(case.case_id, CaseId::new(2));
    assert_eq!(q.len(), 1);
    assert!(q.wake_one(3).is_none());
    assert_eq!(q.len(), 1);
    assert_eq!(a.unparks(), 0);
    assert!(q.unregister(CaseId::new(1)).is_some());
}

#[test]
fn abort_all_empties_the_queue_and_wakes_the_unclaimed() {
    let q: Waker<Ctx> = Waker::new();
    let a = Ctx::new(1);
    let b = Ctx::new(2);
    let c = Ctx::new(3);
    q.register(a.clone(), CaseId::new(1));
    q.register(b.clone(), CaseId::new(2));
    q.register(c.clone(), CaseId::new(3));
    assert!(b.try_select(CaseId::new(77), 0));
    q.abort_all();
    assert_eq!(q.len(), 0);
    assert!(q.is_empty());
    assert_eq!(a.state(), ABORTED);
    assert_eq!(c.state(), ABORTED);
    assert_eq!(b.state(), 77 + 2);
    assert_eq!(a.unparks(), 1);
    assert_eq!(c.unparks(), 1);
    assert_eq!(b.unparks(), 0);
    assert!(q.unregister(CaseId::new(1)).is_none());
    assert!(q.wake_one(9).is_none());
}

#[test]
fn abort_all_wakes_the_callers_own_cases_too() {
    let q: Waker<Ctx> = Waker::new();
    let a = Ctx::new(1);
    q.register(a.clone(), CaseId::new(1));
    q.abort_all();
    assert_eq!(a.state(), ABORTED);
    assert_eq!(a.unparks(), 1);
    assert!(q.is_empty());
}

#[test]
fn unregister_twice_gives_the_case_once() {
    let q: Waker<Ctx> = Waker::new();
    let a = Ctx::new(1);
    q.register_with_packet(a.clone(), CaseId::new(4), 44);
    q.register_with_packet(a.clone(), CaseId::new(5), 55);
    let first = q.unregister(CaseId::new(4));
    assert_eq!(first.map(|c| c.packet), Some(44));
    assert!(q.unregister(CaseId::new(4)).is_none());
    assert_eq!(q.len(), 1);
    assert!(q.unregister(CaseId::new(5)).is_some());
}

#[test]
fn unregister_of_a_duplicate_removes_the_oldest_only() {
    let q: Waker<Ctx> = Waker::new();
    let a = Ctx::new(1);
    q.register_with_packet(a.clone(), CaseId::new(4), 1);
    q.register_with_packet(a.clone(), CaseId::new(4), 2);
    assert_eq!(q.unregister(CaseId::new(4)).map(|c| c.packet), Some(1));
    assert_eq!(q.len(), 1);
    assert_eq!(q.unregister(CaseId::new(4)).map(|c| c.packet), Some(2));
    assert!(q.unregister(CaseId::new(4)).is_none());
}

#[test]
fn unregister_does_not_touch_the_context() {
    let q: Waker<Ctx> = Waker::new();
    let a = Ctx::new(1);
    q.register(a.clone(), CaseId::new(1));
    assert!(q.unregister(CaseId::new(2)).is_none());
    assert!(q.unregister(CaseId::new(1)).is_some());
    assert_eq!(a.state(), WAITING);
    assert_eq!(a.unparks(), 0);
}

#[test]
fn can_notify_looks_for_another_thread() {
    let q: Waker<Ctx> = Waker::new();
    let a = Ctx::new(1);
    let b = Ctx::new(2);
    assert!(!q.can_notify(1));
    q.register(a.clone(), CaseId::new(1));
    assert!(!q.can_notify(1));
    assert!(q.can_notify(2));
    q.register(b.clone(), CaseId::new(2));
    assert!(q.can_notify(1));
    assert!(q.can_notify(2));
    assert!(q.can_notify(3));
    assert_eq!(q.len(), 2);
    assert_eq!(a.state(), WAITING);
    assert_eq!(b.state(), WAITING);
    q.abort_all();
    assert!(!q.can_notify(3));
}

#[test]
fn capacity_shrinks_after_a_burst() {
    let q: Waker<Ctx> = Waker::new();
    let a = Ctx::new(1);
    for id in 0..40 {
        q.register(a.clone(), CaseId::new(id));
    }
    let peak = q.capacity();
    assert!(peak >= 40);
    for id in 0..39 {
        assert!(q.unregister(CaseId::new(id)).is_some());
    }
    assert_eq!(q.len(), 1);
    assert!(q.capacity() < peak);
    assert!(q.capacity() >= q.len());
    let last = q.unregister(CaseId::new(39)).unwrap();
    assert_eq!(last.case_id, CaseId::new(39));
    assert!(q.is_empty());
}

#[test]
fn unregister_after_a_wake_finds_nothing() {
    let q: Waker<Ctx> = Waker::new();
    let a = Ctx::new(1);
    q.register_with_packet(a.clone(), CaseId::new(6), 60);
    let case = q.wake_one(2).unwrap();
    assert_eq!(case.packet, 60);
    assert!(q.unregister(CaseId::new(6)).is_none());
    assert_eq!(a.unparks(), 1);
    assert!(q.is_empty());
}

#[test]
fn a_refused_claim_leaves_the_case_queued() {
    let q: Waker<Ctx> = Waker::new();
    let a = Ctx::new(1);
    q.register(a.clone(), CaseId::new(6));
    assert!(a.try_abort());
    assert!(q.wake_one(2).is_none());
    assert_eq!(q.len(), 1);
    assert!(q.can_notify(2));
    assert_eq!(a.unparks(), 0);
    let case = q.unregister(CaseId::new(6)).unwrap();
    assert_eq!(case.thread_id, 1);
    assert!(q.is_empty());
}

/// A context that records the claim it was asked to accept.
struct Recorder {
    asked_id: AtomicUsize,
    asked_packet: AtomicUsize,
    selects: AtomicUsize,
    aborts: AtomicUsize,
    unparks: AtomicUsize,
}

impl SelectionContext for Recorder {
    fn thread_id(&self) -> u64 {
        1
    }

    fn try_select(&self, case_id: CaseId, packet: usize) -> bool {
        self.asked_id.store(case_id.id, Ordering::SeqCst);
        self.asked_packet.store(packet, Ordering::SeqCst);
        self.selects.fetch_add(1, Ordering::SeqCst);
        true
    }

    fn try_abort(&self) -> bool {
        self.aborts.fetch_add(1, Ordering::SeqCst);
        true
    }

    fn unpark(&self) {
        self.unparks.fetch_add(1, Ordering::SeqCst);
    }
}

fn recorder() -> Arc<Recorder> {
    Arc::new(Recorder {
        asked_id: AtomicUsize::new(0),
        asked_packet: AtomicUsize::new(0),
        selects: AtomicUsize::new(0),
        aborts: AtomicUsize::new(0),
        unparks: AtomicUsize::new(0),
    })
}

#[test]
fn the_claim_is_made_with_the_entrys_own_id_and_payload() {
    let q: Waker<Recorder> = Waker::new();
    let a = recorder();
    q.register_with_packet(a.clone(), CaseId::new(17), 1700);
    assert!(q.wake_one(1).is_none());
    assert_eq!(a.selects.load(Ordering::SeqCst), 0);
    let case = q.wake_one(2).unwrap();
    assert_eq!(case.case_id, CaseId::new(17));
    assert_eq!(a.asked_id.load(Ordering::SeqCst), 17);
    assert_eq!(a.asked_packet.load(Ordering::SeqCst), 1700);
    assert_eq!(a.selects.load(Ordering::SeqCst), 1);
    assert_eq!(a.aborts.load(Ordering::SeqCst), 0);
    assert_eq!(a.unparks.load(Ordering::SeqCst), 1);
}

#[test]
fn abort_all_asks_each_entry_once() {
    let q: Waker<Recorder> = Waker::new();
    let a = recorder();
    let b = recorder();
    q.register_with_packet(a.clone(), CaseId::new(1), 100);
    q.register_with_packet(b.clone(), CaseId::new(2), 200);
    q.abort_all();
    assert!(q.is_empty());
    for c in [&a, &b] {
        assert_eq!(c.aborts.load(Ordering::SeqCst), 1);
        assert_eq!(c.unparks.load(Ordering::SeqCst), 1);
        assert_eq!(c.selects.load(Ordering::SeqCst), 0);
    }
}
