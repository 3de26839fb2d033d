//! A wait queue for blocked selection cases: threads register the cases they
//! are waiting on, and a thread that makes a channel event available claims
//! and wakes exactly one of them.

pub mod select;
pub mod queue;
pub mod history;
mod sync;
pub mod waker;
