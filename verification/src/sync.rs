//! The lock that serialises access to a queue's entries.

use vstd::prelude::*;

verus! {

/// `lock_api::Mutex`, of which `parking_lot::Mutex` is an instance: a value
/// behind a mutual-exclusion lock. Nothing inside it is visible here.
#[verifier::external_type_specification]
#[verifier::external_body]
#[verifier::reject_recursive_types(R)]
#[verifier::reject_recursive_types(T)]
pub struct ExMutex<R, T: ?Sized>(parking_lot::lock_api::Mutex<R, T>);

/// `parking_lot::RawMutex`, the lock itself inside a `parking_lot::Mutex`.
#[verifier::external_type_specification]
#[verifier::external_body]
pub struct ExRawMutex(parking_lot::RawMutex);

/// A held lock: a `parking_lot::MutexGuard`, kept out of sight because its
/// type is bounded by a trait of the lock's crate. The lock is released when
/// this value goes out of scope.
#[verifier::external_body]
#[verifier::reject_recursive_types(T)]
pub struct Held<'a, T> {
    guard: parking_lot::MutexGuard<'a, T>,
}

/// `parking_lot::Mutex::new`: a lock that owns `value`.
#[verifier::external_body]
pub(crate) fn new_mutex<T>(value: T) -> (m: parking_lot::Mutex<T>) {
    parking_lot::Mutex::new(value)
}

/// `parking_lot::Mutex::lock`: blocks until the lock is held. A thread that
/// already holds the lock must not call it again: it would wait for itself.
/// Every caller in this crate takes the lock once and lets go of it before
/// it returns.
#[verifier::external_body]
pub(crate) fn lock<'a, T>(m: &'a parking_lot::Mutex<T>) -> (g: Held<'a, T>) {
    Held { guard: m.lock() }
}

/// `DerefMut::deref_mut` of the guard: the value the lock protects. Other
/// threads may have changed it since it was last seen, so nothing is said of
/// what it holds.
#[verifier::external_body]
pub(crate) fn protected<'a, 'b, T>(g: &'a mut Held<'b, T>) -> (r: &'a mut T) {
    &mut *g.guard
}

} // verus!
