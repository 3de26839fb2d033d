//! The entries of one wait queue, as a sequence in registration order.
//!
//! Everything here works on a queue that the caller has exclusive access to;
//! the lock around it lives with the waker.

use crate::select::{Case, CaseId, SelectionContext};
use std::collections::VecDeque;
use std::sync::Arc;
use vstd::prelude::*;

verus! {

/// Backing storage is never shrunk at or below this capacity.
pub const SHRINK_THRESHOLD: usize = 32;

/// Index of the first entry at or after `from` that was registered under
/// `id`, or the length of `s` where there is none.
pub open spec fn first_with_id<C>(s: Seq<Case<C>>, id: CaseId, from: int) -> int
    decreases s.len() - from,
{
    if from < 0 || from >= s.len() {
        s.len() as int
    } else if s[from].case_id == id {
        from
    } else {
        first_with_id(s, id, from + 1)
    }
}

/// Index of the first entry at or after `from` that belongs to a thread other
/// than `thread_id`, or the length of `s` where there is none.
pub open spec fn first_other<C>(s: Seq<Case<C>>, thread_id: u64, from: int) -> int
    decreases s.len() - from,
{
    if from < 0 || from >= s.len() {
        s.len() as int
    } else if s[from].thread_id != thread_id {
        from
    } else {
        first_other(s, thread_id, from + 1)
    }
}

/// The queue after the first entry registered under `id` has left it.
pub open spec fn without_id<C>(s: Seq<Case<C>>, id: CaseId) -> Seq<Case<C>> {
    let i = first_with_id(s, id, 0);
    if i < s.len() {
        s.remove(i)
    } else {
        s
    }
}

/// Whether some entry of `s` refers to `context`.
pub open spec fn queues_context<C>(s: Seq<Case<C>>, context: Arc<C>) -> bool {
    exists|i: int| 0 <= i < s.len() && (#[trigger] s[i]).context == context
}

/// Whether `picked` holds the contexts of some of the entries of `s`, each
/// entry taken at most once and in the order of `s`.
pub open spec fn picked_in_order<C>(picked: Seq<Arc<C>>, s: Seq<Case<C>>) -> bool
    decreases s.len(),
{
    if s.len() == 0 {
        picked.len() == 0
    } else {
        picked_in_order(picked, s.drop_last()) || (picked.len() > 0 && picked.last()
            == s.last().context && picked_in_order(picked.drop_last(), s.drop_last()))
    }
}

/// Whether storage of `capacity` slots that holds `len` entries is due to be
/// halved: it is above the threshold and less than a quarter full.
pub open spec fn shrink_due(capacity: usize, len: usize) -> bool {
    capacity > SHRINK_THRESHOLD && len < capacity / 4
}

/// `VecDeque::capacity`: how many entries the deque can hold before it has to
/// reallocate, which is never fewer than it holds.
#[verifier::external_body]
fn capacity_of<T>(v: &VecDeque<T>) -> (c: usize)
    ensures
        c >= v@.len(),
{
    v.capacity()
}

/// Decides whether storage is due to be halved.
pub fn should_shrink(capacity: usize, len: usize) -> (r: bool)
    ensures
        r == shrink_due(capacity, len),
{
    capacity > SHRINK_THRESHOLD && len < capacity / 4
}

/// The capacity to ask for in place of `capacity`: half of it where storage
/// that holds `len` entries is due to be halved, none where it is not.
pub fn shrink_target(capacity: usize, len: usize) -> (r: Option<usize>)
    ensures
        r == (if shrink_due(capacity, len) {
            Some((capacity / 2) as usize)
        } else {
            None
        }),
{
    if should_shrink(capacity, len) {
        Some(capacity / 2)
    } else {
        None
    }
}

/// The pending cases of one channel endpoint, oldest first.
pub struct WaitList<C> {
    entries: VecDeque<Case<C>>,
}

impl<C> View for WaitList<C> {
    type V = Seq<Case<C>>;

    closed spec fn view(&self) -> Seq<Case<C>> {
        self.entries@
    }
}

impl<C> WaitList<C> {
    /// An empty queue.
    pub fn new() -> (r: Self)
        ensures
            r@ == Seq::<Case<C>>::empty(),
    {
        WaitList { entries: VecDeque::new() }
    }

    /// Number of entries.
    pub fn len(&self) -> (n: usize)
        ensures
            n == self@.len(),
    {
        self.entries.len()
    }

    /// Number of entries the backing storage can hold before it grows.
    pub fn capacity(&self) -> (c: usize)
        ensures
            c >= self@.len(),
    {
        capacity_of(&self.entries)
    }

    /// Appends `case` behind every entry already queued.
    pub fn push(&mut self, case: Case<C>)
        ensures
            final(self)@ == old(self)@.push(case),
    {
        self.entries.push_back(case);
    }

    /// Registers a case for the thread `thread_id` that owns `context`: the
    /// case made of exactly these four values goes behind every entry
    /// already queued.
    pub fn register(&mut self, context: Arc<C>, thread_id: u64, case_id: CaseId, packet: usize)
        ensures
            final(self)@ == old(self)@.push((Case { context, thread_id, case_id, packet })),
    {
        self.push(Case { context, thread_id, case_id, packet });
    }

    /// Position of the first entry registered under `case_id`.
    pub fn position(&self, case_id: CaseId) -> (r: Option<usize>)
        ensures
            match r {
                Some(i) => i < self@.len() && i == first_with_id(self@, case_id, 0),
                None => first_with_id(self@, case_id, 0) == self@.len(),
            },
    {
        let n: usize = self.entries.len();
        let mut i: usize = 0;
        while i < n
            invariant
                n == self@.len(),
                i <= n,
                first_with_id(self@, case_id, 0) == first_with_id(self@, case_id, i as int),
            decreases n - i,
        {
            if self.entries[i].case_id == case_id {
                return Some(i);
            }
            i += 1;
        }
        None
    }

    /// Position of the first entry at or after `from` that a thread other
    /// than `thread_id` owns.
    pub fn next_other(&self, thread_id: u64, from: usize) -> (r: Option<usize>)
        ensures
            match r {
                Some(i) => from <= i < self@.len() && i == first_other(self@, thread_id, from as int),
                None => first_other(self@, thread_id, from as int) == self@.len(),
            },
    {
        let n: usize = self.entries.len();
        let mut i: usize = from;
        while i < n
            invariant
                n == self@.len(),
                from <= i,
                first_other(self@, thread_id, from as int) == first_other(
                    self@,
                    thread_id,
                    i as int,
                ),
            decreases n - i,
        {
            if self.entries[i].thread_id != thread_id {
                return Some(i);
            }
            i += 1;
        }
        None
    }

    /// The next claim to make for a caller on thread `thread_id`: the position
    /// of the first entry at or after `from` that another thread owns, with
    /// the case id and the payload of that very entry, which are what its
    /// context is asked to accept.
    pub fn next_claim(&self, thread_id: u64, from: usize) -> (r: Option<(usize, CaseId, usize)>)
        ensures
            match r {
                Some((i, id, p)) => from <= i < self@.len() && i == first_other(
                    self@,
                    thread_id,
                    from as int,
                ) && id == self@[i as int].case_id && p == self@[i as int].packet,
                None => first_other(self@, thread_id, from as int) == self@.len(),
            },
    {
        match self.next_other(thread_id, from) {
            Some(i) => Some((i, self.entries[i].case_id, self.entries[i].packet)),
            None => None,
        }
    }

    /// Records the answer of one context to an abort: a context that agreed
    /// joins those whose threads are to be resumed, behind the ones already
    /// there; one that refused does not.
    pub fn note_abort(aborted: &mut Vec<Arc<C>>, context: Arc<C>, agreed: bool)
        ensures
            agreed ==> final(aborted)@ == old(aborted)@.push(context),
            !agreed ==> final(aborted)@ == old(aborted)@,
    {
        if agreed {
            aborted.push(context);
        }
    }

    /// Whether some entry belongs to a thread other than `thread_id`.
    pub fn has_other(&self, thread_id: u64) -> (r: bool)
        ensures
            r == (first_other(self@, thread_id, 0) < self@.len()),
            r == exists|i: int| 0 <= i < self@.len() && #[trigger] self@[i].thread_id != thread_id,
    {
        proof {
            lemma_first_other(self@, thread_id, 0);
        }
        self.next_other(thread_id, 0).is_some()
    }

    /// Removes the entry at `index` and hands it out, closing the gap.
    pub fn take(&mut self, index: usize) -> (case: Case<C>)
        requires
            index < old(self)@.len(),
        ensures
            case == old(self)@[index as int],
            final(self)@ == old(self)@.remove(index as int),
    {
        let removed = self.entries.remove(index);
        let case = removed.unwrap();
        self.maybe_shrink();
        case
    }

    /// Removes the first entry registered under `case_id`, if there is one,
    /// and hands it out. Later entries under the same id stay.
    pub fn unregister(&mut self, case_id: CaseId) -> (r: Option<Case<C>>)
        ensures
            final(self)@ == without_id(old(self)@, case_id),
            match r {
                Some(case) => {
                    let i = first_with_id(old(self)@, case_id, 0);
                    i < old(self)@.len() && case == old(self)@[i]
                },
                None => first_with_id(old(self)@, case_id, 0) == old(self)@.len(),
            },
    {
        match self.position(case_id) {
            Some(i) => Some(self.take(i)),
            None => None,
        }
    }

    /// Halves the backing storage where it is above the threshold and less
    /// than a quarter full. The entries and their order stay as they are.
    pub fn maybe_shrink(&mut self)
        ensures
            final(self)@ == old(self)@,
    {
        let capacity: usize = capacity_of(&self.entries);
        match shrink_target(capacity, self.entries.len()) {
            Some(target) => {
                let mut smaller: VecDeque<Case<C>> = VecDeque::with_capacity(target);
                smaller.append(&mut self.entries);
                assert(smaller@ =~= old(self)@);
                self.entries = smaller;
            },
            None => {},
        }
    }
}

impl<C: SelectionContext> WaitList<C> {
    /// Scans the queue from the oldest entry on and claims the first one that
    /// another thread owns and whose context accepts the claim. The claimed
    /// entry leaves the queue and is handed out for its thread to be resumed.
    ///
    /// Which claims a context accepts is for the context to say, so the
    /// result is stated for every answer: an entry that comes back was queued,
    /// belongs to another thread, and is the only one that left.
    pub fn wake_one(&mut self, thread_id: u64) -> (r: Option<Case<C>>)
        ensures
            match r {
                Some(case) => exists|i: int|
                    0 <= i < old(self)@.len() && #[trigger] old(self)@[i] == case
                        && first_other(old(self)@, thread_id, 0) <= i
                        && final(self)@ == old(self)@.remove(i),
                None => final(self)@ == old(self)@,
            },
            r is Some ==> r->0.thread_id != thread_id,
            first_other(old(self)@, thread_id, 0) == old(self)@.len() ==> r is None,
    {
        let n: usize = self.entries.len();
        let mut from: usize = 0;
        loop
            invariant
                self@ == old(self)@,
                n == self@.len(),
                from <= n,
                first_other(self@, thread_id, 0) <= first_other(self@, thread_id, from as int),
            decreases n - from,
        {
            match self.next_claim(thread_id, from) {
                None => {
                    return None;
                },
                Some((i, case_id, packet)) => {
                    let claimed = self.entries[i].context.try_select(case_id, packet);
                    proof {
                        lemma_first_other(self@, thread_id, from as int);
                        lemma_first_other(self@, thread_id, i + 1);
                    }
                    match self.settle(i, claimed) {
                        Some(case) => {
                            return Some(case);
                        },
                        None => {},
                    }
                    from = i + 1;
                },
            }
        }
    }

    /// Empties the queue, asking each entry's context in turn to give up its
    /// selection as disconnected. The contexts that agreed are handed out, in
    /// queue order, for their threads to be resumed; one that refused was
    /// claimed elsewhere and is being resumed by whoever claimed it.
    pub fn abort_all(&mut self) -> (aborted: Vec<Arc<C>>)
        ensures
            final(self)@.len() == 0,
            picked_in_order(aborted@, old(self)@),
            aborted@.len() <= old(self)@.len(),
            forall|k: int|
                0 <= k < aborted@.len() ==> queues_context(old(self)@, #[trigger] aborted@[k]),
    {
        let mut aborted: Vec<Arc<C>> = Vec::new();
        let ghost before = self@;
        while self.entries.len() > 0
            invariant
                before == old(self)@,
                self@.len() <= before.len(),
                self@ == before.subrange(before.len() - self@.len(), before.len() as int),
                aborted@.len() <= before.len() - self@.len(),
                picked_in_order(aborted@, before.subrange(0, before.len() - self@.len())),
                forall|k: int|
                    0 <= k < aborted@.len() ==> queues_context(before, #[trigger] aborted@[k]),
            decreases self@.len(),
        {
            let ghost rest = self@;
            let ghost done = before.len() - rest.len();
            let ghost picked = aborted@;
            let front = self.entries.pop_front();
            let case = front.unwrap();
            assert(case == before[done]);
            assert(self@ =~= before.subrange(before.len() - self@.len(), before.len() as int));
            assert(before.subrange(0, done + 1).drop_last() =~= before.subrange(0, done));
            assert(before.subrange(0, done + 1).last() == case);
            let agreed = case.context.try_abort();
            Self::note_abort(&mut aborted, case.context, agreed);
            if agreed {
                assert(aborted@.drop_last() =~= picked);
            }
        }
        assert(before.subrange(0, before.len() as int) =~= before);
        self.maybe_shrink();
        aborted
    }

    /// Settles a claim on the entry at `index` once its context has answered:
    /// where the context accepted, the entry leaves the queue and is handed
    /// out; where it refused, the queue stays as it is.
    pub fn settle(&mut self, index: usize, claimed: bool) -> (r: Option<Case<C>>)
        requires
            index < old(self)@.len(),
        ensures
            claimed ==> r == Some(old(self)@[index as int]) && final(self)@ == old(self)@.remove(
                index as int,
            ),
            !claimed ==> r is None && final(self)@ == old(self)@,
    {
        if claimed {
            Some(self.take(index))
        } else {
            None
        }
    }
}

/// What `first_other` finds: an entry of another thread, with none before it
/// from `from` on; or the length, where every entry from `from` on belongs to
/// `thread_id`.
pub proof fn lemma_first_other<C>(s: Seq<Case<C>>, thread_id: u64, from: int)
    requires
        0 <= from <= s.len(),
    ensures
        from <= first_other(s, thread_id, from) <= s.len(),
        first_other(s, thread_id, from) < s.len() ==> s[first_other(s, thread_id, from)].thread_id
            != thread_id,
        forall|j: int|
            from <= j < first_other(s, thread_id, from) ==> (#[trigger] s[j]).thread_id
                == thread_id,
    decreases s.len() - from,
{
    if from < s.len() && s[from].thread_id == thread_id {
        lemma_first_other(s, thread_id, from + 1);
    }
}

/// What `first_with_id` finds: an entry registered under `id`, with none
/// before it from `from` on; or the length, where no entry from `from` on was
/// registered under `id`.
pub proof fn lemma_first_with_id<C>(s: Seq<Case<C>>, id: CaseId, from: int)
    requires
        0 <= from <= s.len(),
    ensures
        from <= first_with_id(s, id, from) <= s.len(),
        first_with_id(s, id, from) < s.len() ==> s[first_with_id(s, id, from)].case_id == id,
        forall|j: int| from <= j < first_with_id(s, id, from) ==> (#[trigger] s[j]).case_id != id,
    decreases s.len() - from,
{
    if from < s.len() && s[from].case_id != id {
        lemma_first_with_id(s, id, from + 1);
    }
}

} // verus!
