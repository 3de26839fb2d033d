//! The wait queue as threads share it: the entries behind a lock, and beside
//! them a counter that lets a caller skip the lock while the queue is empty.

use crate::queue::{lemma_first_with_id, WaitList};
use crate::select::{Case, CaseId, SelectionContext};
use crate::sync::{lock, new_mutex, protected};
use std::sync::atomic::{AtomicUsize, Ordering};
use std::sync::Arc;
use vstd::prelude::*;

verus! {

/// A wait queue for one channel endpoint.
///
/// Threads register selection cases before they block; a thread that makes
/// an event available wakes one of them, and closing the channel aborts all
/// of them. Every method may be called from any thread at any time, so what
/// the queue holds when a call starts is whatever the other threads left
/// there: the contracts state what holds of each result whatever that was,
/// and the contracts of [`WaitList`] state what each step does to the entries.
#[verifier::reject_recursive_types(C)]
pub struct Waker<C> {
    /// The registered cases, oldest first.
    cases: parking_lot::Mutex<WaitList<C>>,
    /// Number of registered cases as of the last change made under the lock.
    len: AtomicUsize,
}

impl<C: SelectionContext> Waker<C> {
    /// A queue with no case registered.
    pub fn new() -> (r: Self) {
        Waker { cases: new_mutex(WaitList::new()), len: AtomicUsize::new(0) }
    }

    /// The counter, read without the lock.
    fn count(&self) -> (n: usize) {
        self.len.load(Ordering::SeqCst)
    }

    /// Publishes `n` as the number of registered cases.
    fn set_count(&self, n: usize) {
        self.len.store(n, Ordering::SeqCst);
    }

    /// Registers `case_id` for the thread that owns `context`, with no
    /// payload.
    pub fn register(&self, context: Arc<C>, case_id: CaseId) {
        self.register_with_packet(context, case_id, 0);
    }

    /// Registers `case_id` for the thread that owns `context`, with `packet`
    /// as the payload to hand to whoever claims the case. The case goes
    /// behind every case already registered.
    pub fn register_with_packet(&self, context: Arc<C>, case_id: CaseId, packet: usize) {
        let thread_id: u64 = context.thread_id();
        let mut held = lock(&self.cases);
        let list = protected(&mut held);
        list.register(context, thread_id, case_id, packet);
        let n: usize = list.len();
        self.set_count(n);
    }

    /// Removes the oldest case registered under `case_id` and hands it out.
    /// `None` means that no such case is queued any more: it was claimed or
    /// aborted in the meantime, or never registered.
    pub fn unregister(&self, case_id: CaseId) -> (r: Option<Case<C>>)
        ensures
            r is Some ==> r->0.case_id == case_id,
    {
        if self.count() == 0 {
            return None;
        }
        let mut held = lock(&self.cases);
        let list = protected(&mut held);
        let ghost before = list@;
        let r = list.unregister(case_id);
        proof {
            lemma_first_with_id(before, case_id, 0);
        }
        if r.is_some() {
            let n: usize = list.len();
            self.set_count(n);
        }
        r
    }

    /// Under the lock: claims the oldest claimable case of another thread and
    /// takes it out of the queue.
    fn claim(&self, thread_id: u64) -> (r: Option<Case<C>>)
        ensures
            r is Some ==> r->0.thread_id != thread_id,
    {
        let mut held = lock(&self.cases);
        let list = protected(&mut held);
        let r = list.wake_one(thread_id);
        if r.is_some() {
            let n: usize = list.len();
            self.set_count(n);
        }
        r
    }

    /// Claims the oldest case that belongs to a thread other than
    /// `thread_id`, the caller's own, and whose context accepts the claim;
    /// takes it out of the queue, resumes its thread and hands it out. The
    /// thread is resumed only after the lock has been released.
    ///
    /// A case of the calling thread itself is never claimed.
    pub fn wake_one(&self, thread_id: u64) -> (r: Option<Case<C>>)
        ensures
            r is Some ==> r->0.thread_id != thread_id,
    {
        if self.count() == 0 {
            return None;
        }
        match self.claim(thread_id) {
            Some(case) => {
                case.context.unpark();
                Some(case)
            },
            None => None,
        }
    }

    /// Under the lock: empties the queue and collects the contexts that gave
    /// up their selection as disconnected.
    fn drain(&self) -> (aborted: Vec<Arc<C>>) {
        let mut held = lock(&self.cases);
        let list = protected(&mut held);
        self.set_count(0);
        list.abort_all()
    }

    /// Aborts every registered case: the queue is emptied, and each thread
    /// whose context accepts the abort is resumed, after the lock has been
    /// released.
    pub fn abort_all(&self) {
        if self.count() == 0 {
            return ;
        }
        let aborted = self.drain();
        let mut k: usize = 0;
        while k < aborted.len()
            invariant
                k <= aborted.len(),
            decreases aborted.len() - k,
        {
            aborted[k].unpark();
            k += 1;
        }
    }

    /// Whether a case is registered that a thread other than `thread_id`, the
    /// caller's own, owns.
    pub fn can_notify(&self, thread_id: u64) -> (r: bool) {
        if self.count() == 0 {
            return false;
        }
        let mut held = lock(&self.cases);
        let list = protected(&mut held);
        list.has_other(thread_id)
    }

    /// Number of registered cases, counted under the lock.
    pub fn len(&self) -> (n: usize) {
        let mut held = lock(&self.cases);
        let list = protected(&mut held);
        list.len()
    }

    /// Whether the queue is fit to be torn down: no case is registered and
    /// the counter says so too.
    pub fn is_empty(&self) -> (r: bool) {
        let n: usize = self.len();
        n == 0 && self.count() == 0
    }

    /// Number of cases the backing storage can hold before it grows.
    pub fn capacity(&self) -> (c: usize) {
        let mut held = lock(&self.cases);
        let list = protected(&mut held);
        list.capacity()
    }
}

} // verus!
