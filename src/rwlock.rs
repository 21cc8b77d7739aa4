use vstd::prelude::*;
use std::sync::atomic::{AtomicIsize, Ordering};

verus! {

/// Lock word of a free lock.
pub const FREE: isize = 0;

/// Lock word while a writer holds exclusive access.
pub const WRITER: isize = -1;

/// The three regions of a well-formed lock word.
pub enum RwState {
    /// No guard is alive.
    Free,
    /// This many read guards are alive.
    Reading(usize),
    /// One write guard is alive.
    Writing,
}

/// The state a well-formed lock word encodes.
pub open spec fn state_of(word: isize) -> RwState
    recommends
        word >= WRITER,
{
    if word == FREE {
        RwState::Free
    } else if word > 0 {
        RwState::Reading(word as usize)
    } else {
        RwState::Writing
    }
}

/// A word the lock may hold between its own atomic operations.
pub open spec fn well_formed(word: isize) -> bool {
    word >= WRITER
}

/// A reader may join when no writer is present and one more reader fits.
pub open spec fn admits_reader(word: isize) -> bool {
    0 <= word < isize::MAX
}

/// Decides whether the word observed by a reader's relaxed load lets it
/// try its exchange, and the word it then installs.
pub fn read_target(observed: isize) -> (r: Option<isize>)
    ensures
        r == (if admits_reader(observed) {
            Some((observed + 1) as isize)
        } else {
            None
        }),
{
    if 0 <= observed && observed < isize::MAX {
        Some(observed + 1)
    } else {
        None
    }
}

/// Decides, from the word that `try_read`'s speculative increment read,
/// whether the read access is kept (otherwise the increment is undone).
pub fn reader_admitted(previous: isize) -> (r: bool)
    ensures
        r == admits_reader(previous),
{
    0 <= previous && previous < isize::MAX
}

/// Decides whether a word observed by a waiting writer's relaxed load lets
/// it retry its exchange.
pub fn writer_may_retry(observed: isize) -> (r: bool)
    ensures
        r == (observed == FREE),
{
    observed == FREE
}

/// One uncontested `try_read` on `word`: whether read access is granted,
/// and the word afterwards (a refused increment is undone).
pub open spec fn try_read_step(word: isize) -> (bool, isize) {
    if admits_reader(word) {
        (true, (word + 1) as isize)
    } else {
        (false, word)
    }
}

/// One uncontested exchange from `FREE` to `WRITER` on `word`, as
/// `try_write` and `write_within` make it: whether write access is granted,
/// and the word afterwards.
pub open spec fn write_exchange_step(word: isize) -> (bool, isize) {
    if word == FREE {
        (true, WRITER)
    } else {
        (false, word)
    }
}

/// The word after `k` more readers joined one after another, each through
/// the relaxed load and exchange of `read_within`; `None` when one of them
/// would have had to wait.
pub open spec fn join_readers(word: isize, k: nat) -> Option<isize>
    decreases k,
{
    if k == 0 {
        Some(word)
    } else {
        match join_readers(word, (k - 1) as nat) {
            Some(w) => if admits_reader(w) {
                Some((w + 1) as isize)
            } else {
                None
            },
            None => None,
        }
    }
}

/// Any number of readers, up to the capacity of the word, join a free lock
/// one after another without any of them waiting, and the word then counts
/// them all.
pub proof fn readers_coexist(n: nat)
    requires
        n < isize::MAX,
    ensures
        join_readers(FREE, n) == Some(n as isize),
        n > 0 ==> state_of(n as isize) == RwState::Reading(n as usize),
    decreases n,
{
    if n > 0 {
        readers_coexist((n - 1) as nat);
    }
}

/// While read guards are alive, an attempt at write access fails and leaves
/// the word as it was; while a write guard is alive, `try_read` fails and
/// its undone increment leaves the word as it was.
pub proof fn readers_and_writer_exclude(word: isize)
    requires
        well_formed(word),
    ensures
        state_of(word) is Reading ==> write_exchange_step(word) == (false, word),
        state_of(word) is Writing ==> try_read_step(word) == (false, word),
{
}

/// Dropping the write guard leaves the word `FREE`, and an immediately
/// following `try_write` is granted.
pub proof fn write_release_frees(word: isize)
    requires
        state_of(word) is Writing,
        well_formed(word),
    ensures
        state_of(FREE) == RwState::Free,
        write_exchange_step(FREE) == (true, WRITER),
{
}

/// Every uncontested acquisition or release keeps the word well formed and
/// moves only along the state machine `Free`, `Reading(n)`, `Writing`:
/// readers join or leave one at a time, a writer enters only from `Free`
/// and leaves only to `Free`.
pub proof fn transitions_keep_word_well_formed(word: isize)
    requires
        well_formed(word),
    ensures
        well_formed(try_read_step(word).1),
        try_read_step(word).0 ==> state_of(try_read_step(word).1) == RwState::Reading(
            (word + 1) as usize,
        ),
        well_formed(write_exchange_step(word).1),
        write_exchange_step(word).0 ==> state_of(word) == RwState::Free,
        state_of(word) is Reading ==> well_formed((word - 1) as isize),
        state_of(word) == RwState::Reading(1) ==> state_of((word - 1) as isize) == RwState::Free,
{
}

/// A reader/writer lock that spins until access is available.
///
/// The word is `FREE` (0), a positive count of readers, or `WRITER` (-1).
pub struct RwLock<T> {
    data: T,
    lock: AtomicIsize,
}

/// Shared read access to an [`RwLock`]; dropping it removes one reader.
pub struct RwLockReadGuard<'a, T> {
    rwlock: &'a RwLock<T>,
}

/// Exclusive write access to an [`RwLock`]; dropping it frees the word.
pub struct RwLockWriteGuard<'a, T> {
    rwlock: &'a RwLock<T>,
}

impl<T> RwLock<T> {
    /// The payload held by the lock.
    pub closed spec fn payload(&self) -> T {
        self.data
    }

    /// Creates a free lock around `data`.
    pub fn new(data: T) -> (r: Self)
        ensures
            r.payload() == data,
    {
        RwLock { data, lock: AtomicIsize::new(FREE) }
    }

    /// Tries once to take shared read access, without spinning.
    ///
    /// The word is incremented at once; when the word read before the
    /// increment does not admit a reader (see [`reader_admitted`]) the
    /// increment is undone with a releasing decrement and `None` returned.
    pub fn try_read(&self) -> (r: Option<RwLockReadGuard<'_, T>>)
        ensures
            r matches Some(g) ==> g.rwlock() == *self,
    {
        let previous = self.lock.fetch_add(1, Ordering::Acquire);
        if reader_admitted(previous) {
            Some(RwLockReadGuard::new(self))
        } else {
            remove_reader(&self.lock);
            None
        }
    }

    /// Spins for shared read access, giving up after `polls` failed steps.
    ///
    /// The word is read with relaxed loads until it admits a reader; then an
    /// acquiring exchange installs one more reader, and when it loses a race
    /// the whole attempt starts again. Each load that did not admit a reader
    /// and each lost exchange uses one of the `polls`.
    pub fn read_within(&self, polls: u64) -> (r: Option<RwLockReadGuard<'_, T>>)
        ensures
            r matches Some(g) ==> g.rwlock() == *self,
    {
        let mut left: u64 = polls;
        loop
            decreases left,
        {
            let observed = self.lock.load(Ordering::Relaxed);
            match read_target(observed) {
                Some(next) => {
                    if self.lock.compare_exchange(
                        observed,
                        next,
                        Ordering::Acquire,
                        Ordering::Relaxed,
                    ).is_ok() {
                        return Some(RwLockReadGuard::new(self));
                    }
                },
                None => {
                    core::hint::spin_loop();
                },
            }
            if left == 0 {
                return None;
            }
            left = left - 1;
        }
    }

    /// Tries once to take exclusive write access: a single acquiring
    /// exchange of the word from `FREE` to `WRITER`.
    pub fn try_write(&self) -> (r: Option<RwLockWriteGuard<'_, T>>)
        ensures
            r matches Some(g) ==> g.rwlock() == *self,
    {
        match self.lock.compare_exchange(FREE, WRITER, Ordering::Acquire, Ordering::Relaxed) {
            Ok(_) => Some(RwLockWriteGuard::new(self)),
            Err(_) => None,
        }
    }

    /// Spins for exclusive write access, giving up after `polls` failed steps.
    ///
    /// An acquiring exchange from `FREE` to `WRITER` is tried first; while it
    /// fails, the word is re-read with relaxed loads until it reads `FREE`,
    /// and the exchange is tried again. Each relaxed poll and each failed
    /// exchange after the first uses one of the `polls`.
    pub fn write_within(&self, polls: u64) -> (r: Option<RwLockWriteGuard<'_, T>>)
        ensures
            r matches Some(g) ==> g.rwlock() == *self,
    {
        let mut left: u64 = polls;
        loop
            decreases left,
        {
            if self.lock.compare_exchange(FREE, WRITER, Ordering::Acquire, Ordering::Relaxed).is_ok() {
                return Some(RwLockWriteGuard::new(self));
            }
            let ghost round_start = left;
            while !writer_may_retry(self.lock.load(Ordering::Relaxed))
                invariant
                    left <= round_start,
                decreases left,
            {
                if left == 0 {
                    return None;
                }
                left = left - 1;
                core::hint::spin_loop();
            }
            if left == 0 {
                return None;
            }
            left = left - 1;
        }
    }
}

impl<T: Default> Default for RwLock<T> {
    /// A free lock around the payload's default value.
    fn default() -> (r: Self)
        ensures
            call_ensures(T::default, (), r.payload()),
    {
        RwLock::new(T::default())
    }
}

impl<'a, T> RwLockReadGuard<'a, T> {
    /// The lock this guard reads.
    pub closed spec fn rwlock(&self) -> RwLock<T> {
        *self.rwlock
    }

    fn new(rwlock: &'a RwLock<T>) -> (r: Self)
        ensures
            r.rwlock() == *rwlock,
    {
        RwLockReadGuard { rwlock }
    }
}

impl<'a, T> std::ops::Deref for RwLockReadGuard<'a, T> {
    type Target = T;

    /// Shared access to the payload while the read access is held.
    fn deref(&self) -> (r: &T)
        ensures
            *r == self.rwlock().payload(),
    {
        &self.rwlock.data
    }
}

impl<'a, T> Drop for RwLockReadGuard<'a, T> {
    /// Removes this reader from the word.
    fn drop(&mut self)
        opens_invariants none
        no_unwind
    {
        remove_reader(&self.rwlock.lock);
    }
}

impl<'a, T> RwLockWriteGuard<'a, T> {
    /// The lock this guard writes.
    pub closed spec fn rwlock(&self) -> RwLock<T> {
        *self.rwlock
    }

    fn new(rwlock: &'a RwLock<T>) -> (r: Self)
        ensures
            r.rwlock() == *rwlock,
    {
        RwLockWriteGuard { rwlock }
    }
}

impl<'a, T> std::ops::Deref for RwLockWriteGuard<'a, T> {
    type Target = T;

    /// Access to the payload while the write access is held.
    fn deref(&self) -> (r: &T)
        ensures
            *r == self.rwlock().payload(),
    {
        &self.rwlock.data
    }
}

impl<'a, T> Drop for RwLockWriteGuard<'a, T> {
    /// Frees the word: no other guard can be alive beside a write guard.
    fn drop(&mut self)
        opens_invariants none
        no_unwind
    {
        store_release(&self.rwlock.lock, FREE);
    }
}

/// Relies on `AtomicIsize::fetch_sub`: it subtracts one with wrap-around
/// and does not panic, whatever the ordering.
#[verifier::external_body]
fn remove_reader(word: &AtomicIsize)
    opens_invariants none
    no_unwind
{
    word.fetch_sub(1, Ordering::Release);
}

/// Relies on `AtomicIsize::store`: with `Ordering::Release` it writes the
/// value and does not panic (it panics only for `Acquire` or `AcqRel`).
#[verifier::external_body]
fn store_release(word: &AtomicIsize, value: isize)
    opens_invariants none
    no_unwind
{
    word.store(value, Ordering::Release);
}

} // verus!
