//! What registrations, removals and claims add up to over the life of a
//! queue.

use crate::queue::{first_with_id, lemma_first_with_id, without_id};
use crate::select::{Case, CaseId};
use vstd::prelude::*;

verus! {

/// One change to a queue's entries.
pub enum Step<C> {
    /// A case is registered behind the others.
    Register(Case<C>),
    /// The oldest case registered under an id is taken back, if there is one.
    Unregister(CaseId),
    /// The case at a position is claimed, if the position is in the queue.
    Claim(int),
}

/// The entries after `step`.
pub open spec fn apply<C>(s: Seq<Case<C>>, step: Step<C>) -> Seq<Case<C>> {
    match step {
        Step::Register(case) => s.push(case),
        Step::Unregister(id) => without_id(s, id),
        Step::Claim(i) => if 0 <= i < s.len() {
            s.remove(i)
        } else {
            s
        },
    }
}

/// The entries of a queue that started empty and went through `steps`.
pub open spec fn replay<C>(steps: Seq<Step<C>>) -> Seq<Case<C>>
    decreases steps.len(),
{
    if steps.len() == 0 {
        Seq::empty()
    } else {
        apply(replay(steps.drop_last()), steps.last())
    }
}

/// How many of `steps` registered a case.
pub open spec fn registered<C>(steps: Seq<Step<C>>) -> nat
    decreases steps.len(),
{
    if steps.len() == 0 {
        0
    } else {
        registered(steps.drop_last()) + if steps.last() is Register {
            1nat
        } else {
            0nat
        }
    }
}

/// Whether `step` takes an entry out of `s`: an unregistration that finds
/// its case, or a claim at a position that is in the queue.
pub open spec fn takes_out<C>(s: Seq<Case<C>>, step: Step<C>) -> bool {
    match step {
        Step::Register(_) => false,
        Step::Unregister(id) => first_with_id(s, id, 0) < s.len(),
        Step::Claim(i) => 0 <= i < s.len(),
    }
}

/// How many of `steps` took a case out of the queue.
pub open spec fn departed<C>(steps: Seq<Step<C>>) -> nat
    decreases steps.len(),
{
    if steps.len() == 0 {
        0
    } else {
        departed(steps.drop_last()) + if takes_out(replay(steps.drop_last()), steps.last()) {
            1nat
        } else {
            0nat
        }
    }
}

/// Whether at most one entry of `s` is registered under `id`.
pub open spec fn at_most_once<C>(s: Seq<Case<C>>, id: CaseId) -> bool {
    forall|i: int, j: int|
        0 <= i < s.len() && 0 <= j < s.len() && (#[trigger] s[i]).case_id == id && (
        #[trigger] s[j]).case_id == id ==> i == j
}

/// Whether no entry of `s` is registered under `id`.
pub open spec fn absent<C>(s: Seq<Case<C>>, id: CaseId) -> bool {
    forall|i: int| 0 <= i < s.len() ==> (#[trigger] s[i]).case_id != id
}

/// A search for `id` comes back empty exactly when no entry is registered
/// under it.
pub proof fn lemma_absent_iff_not_found<C>(s: Seq<Case<C>>, id: CaseId)
    ensures
        absent(s, id) <==> first_with_id(s, id, 0) == s.len(),
{
    lemma_first_with_id(s, id, 0);
}

/// One step changes the length by exactly what it says: a registration adds
/// one entry, a step that takes a case out removes one, any other leaves the
/// length as it was.
pub proof fn lemma_step_length<C>(s: Seq<Case<C>>, step: Step<C>)
    ensures
        apply(s, step).len() == s.len() + (if step is Register {
            1int
        } else {
            0int
        }) - (if takes_out(s, step) {
            1int
        } else {
            0int
        }),
{
    match step {
        Step::Register(_) => {},
        Step::Unregister(id) => {
            lemma_first_with_id(s, id, 0);
        },
        Step::Claim(_) => {},
    }
}

/// After any history, the queue holds as many cases as were registered less
/// those that were unregistered or claimed.
pub proof fn lemma_length_is_registered_less_departed<C>(steps: Seq<Step<C>>)
    ensures
        replay(steps).len() == registered(steps) - departed(steps),
        departed(steps) <= registered(steps),
    decreases steps.len(),
{
    if steps.len() > 0 {
        lemma_length_is_registered_less_departed(steps.drop_last());
        lemma_step_length(replay(steps.drop_last()), steps.last());
    }
}

/// Where a case id is registered at most once, unregistering it leaves no
/// case under that id: a second unregistration finds nothing and changes
/// nothing.
pub proof fn lemma_second_unregister_finds_nothing<C>(s: Seq<Case<C>>, id: CaseId)
    requires
        at_most_once(s, id),
    ensures
        absent(without_id(s, id), id),
        first_with_id(without_id(s, id), id, 0) == without_id(s, id).len(),
        without_id(without_id(s, id), id) == without_id(s, id),
{
    let i = first_with_id(s, id, 0);
    let t = without_id(s, id);
    lemma_first_with_id(s, id, 0);
    if i < s.len() {
        assert forall|j: int| 0 <= j < t.len() implies (#[trigger] t[j]).case_id != id by {
            if j < i {
                assert(t[j] == s[j]);
            } else {
                assert(t[j] == s[j + 1]);
                assert(s[i].case_id == id);
            }
        }
    }
    lemma_absent_iff_not_found(t, id);
}

/// A case registered under an id that no queued case has, and then
/// unregistered, leaves the queue exactly as it was before.
pub proof fn lemma_register_then_unregister<C>(s: Seq<Case<C>>, case: Case<C>)
    requires
        absent(s, case.case_id),
    ensures
        without_id(s.push(case), case.case_id) == s,
{
    let t = s.push(case);
    lemma_first_with_id(t, case.case_id, 0);
    let i = first_with_id(t, case.case_id, 0);
    if i < s.len() {
        assert(t[i] == s[i]);
    }
    assert(t[s.len() as int] == case);
    assert(i == s.len());
    assert(t.remove(i) =~= s);
}

/// Unregistering leaves every case registered under another id in the
/// queue, in the order it had.
pub proof fn lemma_unregister_keeps_the_others<C>(s: Seq<Case<C>>, id: CaseId, other: CaseId)
    requires
        other != id,
    ensures
        first_with_id(s, other, 0) < s.len() <==> first_with_id(without_id(s, id), other, 0)
            < without_id(s, id).len(),
        first_with_id(s, other, 0) < s.len() ==> without_id(s, id)[first_with_id(
            without_id(s, id),
            other,
            0,
        )] == s[first_with_id(s, other, 0)],
{
    let t = without_id(s, id);
    let i = first_with_id(s, id, 0);
    let a = first_with_id(s, other, 0);
    let b = first_with_id(t, other, 0);
    lemma_first_with_id(s, id, 0);
    lemma_first_with_id(s, other, 0);
    lemma_first_with_id(t, other, 0);
    if i < s.len() {
        if a < s.len() {
            let a2 = if a < i {
                a
            } else {
                a - 1
            };
            assert(t[a2] == s[a]);
            if b < a2 {
                let b2 = if b < i {
                    b
                } else {
                    b + 1
                };
                assert(t[b] == s[b2]);
            }
            assert(b == a2);
        } else if b < t.len() {
            let b2 = if b < i {
                b
            } else {
                b + 1
            };
            assert(t[b] == s[b2]);
        }
    }
}

} // verus!
