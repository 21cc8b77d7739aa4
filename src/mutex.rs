use vstd::prelude::*;
use std::sync::atomic::{AtomicBool, Ordering};

verus! {

/// The exchange of the lock flag to `true` takes the lock exactly when it
/// read `false`.
pub open spec fn exchange_acquires(previous: bool) -> bool {
    !previous
}

/// What `try_lock` decides from the value its relaxed peek read and the
/// value its acquiring exchange read (the exchange runs only after a peek
/// that read `false`).
pub open spec fn try_lock_acquires(peeked: bool, exchanged: bool) -> bool {
    !peeked && exchange_acquires(exchanged)
}

/// The decision of `try_lock`, taken from the two values it observed.
pub fn try_lock_outcome(peeked: bool, exchanged: bool) -> (r: bool)
    ensures
        r == try_lock_acquires(peeked, exchanged),
{
    !peeked && !exchanged
}

/// The decision of an acquiring exchange, taken from the value it read.
pub fn exchange_outcome(previous: bool) -> (r: bool)
    ensures
        r == exchange_acquires(previous),
{
    !previous
}

/// One uncontested `try_lock` on a flag that reads `locked`: whether the
/// lock is taken, and the flag afterwards.
pub open spec fn try_lock_step(locked: bool) -> (bool, bool) {
    (try_lock_acquires(locked, locked), true)
}

/// While a guard holds the lock, `try_lock` fails and leaves the flag set;
/// once that guard is dropped (the flag stored `false`), the next
/// `try_lock` takes the lock.
pub proof fn try_lock_excludes_holder()
    ensures
        try_lock_step(true) == (false, true),
        try_lock_step(false) == (true, true),
{
}

/// A mutual-exclusion lock that spins until the lock is available.
///
/// The lock flag is `true` exactly while a guard is alive; the payload is
/// owned by the lock for its whole lifetime.
pub struct Mutex<T> {
    data: T,
    lock: AtomicBool,
}

/// Proof of holding a [`Mutex`]; dropping it stores `false` into the flag.
pub struct MutexGuard<'a, T> {
    mutex: &'a Mutex<T>,
}

impl<T> Mutex<T> {
    /// The payload held by the lock.
    pub closed spec fn payload(&self) -> T {
        self.data
    }

    /// Creates an unlocked mutex around `data`.
    pub fn new(data: T) -> (r: Self)
        ensures
            r.payload() == data,
    {
        Mutex { data, lock: AtomicBool::new(false) }
    }

    /// Tries once to take the lock, without spinning.
    ///
    /// A relaxed peek fails fast when the flag is set; only when it reads
    /// `false` does an acquiring exchange run, and the lock is taken when
    /// that exchange also read `false` (see [`try_lock_outcome`]).
    pub fn try_lock(&self) -> (r: Option<MutexGuard<'_, T>>)
        ensures
            r matches Some(g) ==> g.mutex() == *self,
    {
        let peeked = self.lock.load(Ordering::Relaxed);
        let exchanged = if peeked {
            true
        } else {
            self.lock.swap(true, Ordering::Acquire)
        };
        if try_lock_outcome(peeked, exchanged) {
            Some(MutexGuard::new(self))
        } else {
            None
        }
    }

    /// Spins for the lock, giving up after `polls` failed steps.
    ///
    /// Test-then-test-and-set: an acquiring exchange is tried first; while it
    /// fails, the flag is re-read with relaxed loads (which leave the cache
    /// line shared) until it reads `false`, and the exchange is tried again.
    /// Each relaxed poll and each failed exchange after the first uses one of
    /// the `polls`; with `polls == 0` exactly one exchange is tried.
    pub fn lock_within(&self, polls: u64) -> (r: Option<MutexGuard<'_, T>>)
        ensures
            r matches Some(g) ==> g.mutex() == *self,
    {
        let mut left: u64 = polls;
        loop
            decreases left,
        {
            if exchange_outcome(self.lock.swap(true, Ordering::Acquire)) {
                return Some(MutexGuard::new(self));
            }
            let ghost round_start = left;
            while self.lock.load(Ordering::Relaxed)
                invariant
                    left <= round_start,
                decreases left,
            {
                if left == 0 {
                    return None;
                }
                left = left - 1;
                core::hint::spin_loop();
            }
            if left == 0 {
                return None;
            }
            left = left - 1;
        }
    }

    fn unlock(&self)
        opens_invariants none
        no_unwind
    {
        store_release(&self.lock, false);
    }
}

impl<T: Default> Default for Mutex<T> {
    /// An unlocked mutex around the payload's default value.
    fn default() -> (r: Self)
        ensures
            call_ensures(T::default, (), r.payload()),
    {
        Mutex::new(T::default())
    }
}

impl<'a, T> MutexGuard<'a, T> {
    /// The mutex this guard holds.
    pub closed spec fn mutex(&self) -> Mutex<T> {
        *self.mutex
    }

    fn new(mutex: &'a Mutex<T>) -> (r: Self)
        ensures
            r.mutex() == *mutex,
    {
        MutexGuard { mutex }
    }
}

impl<'a, T> std::ops::Deref for MutexGuard<'a, T> {
    type Target = T;

    /// Shared access to the payload while the lock is held.
    fn deref(&self) -> (r: &T)
        ensures
            *r == self.mutex().payload(),
    {
        &self.mutex.data
    }
}

impl<'a, T> Drop for MutexGuard<'a, T> {
    /// Releases the lock.
    fn drop(&mut self)
        opens_invariants none
        no_unwind
    {
        self.mutex.unlock();
    }
}

/// Relies on `AtomicBool::store`: with `Ordering::Release` it writes the
/// value and does not panic (it panics only for `Acquire` or `AcqRel`).
#[verifier::external_body]
fn store_release(flag: &AtomicBool, value: bool)
    opens_invariants none
    no_unwind
{
    flag.store(value, Ordering::Release);
}

} // verus!
