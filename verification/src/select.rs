//! The records held in a wait queue and the interface of the selection
//! context they refer to.

use std::sync::Arc;
use vstd::prelude::*;

verus! {

/// Identifies one arm of a selection. Only equality is ever asked of it.
#[derive(Clone, Copy, Debug, PartialEq, Eq, Structural)]
pub struct CaseId {
    pub id: usize,
}

impl CaseId {
    pub fn new(id: usize) -> (r: CaseId)
        ensures
            r.id == id,
    {
        CaseId { id }
    }
}

/// What a wait queue asks of the selection context of a blocked thread.
///
/// The outcome of a claim depends on what other threads did to the same
/// context in the meantime, so nothing is promised of the results: the queue
/// is verified for every answer a context may give.
pub trait SelectionContext {
    /// Identity of the thread that owns this context; it never changes.
    fn thread_id(&self) -> u64;

    /// Atomically claims the context for `case_id`, handing over `packet`.
    /// Succeeds for at most one caller per selection.
    fn try_select(&self, case_id: CaseId, packet: usize) -> bool;

    /// Atomically claims the context as disconnected. Excludes, and is
    /// excluded by, a successful `try_select`.
    fn try_abort(&self) -> bool;

    /// Resumes the thread that owns this context.
    fn unpark(&self);
}

/// A pending selection case: the context of the thread that waits, the case
/// it registered, and the payload to hand over when the case is claimed.
pub struct Case<C> {
    /// Context of the thread that owns this case.
    pub context: Arc<C>,
    /// Identity of the owning thread, as the context gave it at registration.
    pub thread_id: u64,
    /// The case that was registered.
    pub case_id: CaseId,
    /// Payload carried unchanged to whoever claims the case.
    pub packet: usize,
}

} // verus!
