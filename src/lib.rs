//! Spin-based synchronization primitives: an exclusive lock and a
//! shared/exclusive (reader/writer) lock, each guarding a payload behind a
//! single atomic word, with guards that release the word when dropped.
use vstd::prelude::*;

pub mod counter;
pub mod mutex;
pub mod rwlock;
pub mod visibility;

pub use mutex::{Mutex, MutexGuard};
pub use rwlock::{RwLock, RwLockReadGuard, RwLockWriteGuard};

verus! {

/// Relies on `core::hint::spin_loop`: a processor hint with no effect on any value.
pub assume_specification[ core::hint::spin_loop ]();

} // verus!
