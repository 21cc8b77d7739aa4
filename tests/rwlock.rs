use spinlock::rwlock::{read_target, reader_admitted, writer_may_retry, FREE, WRITER};
use spinlock::RwLock;

#[test]
fn multiple_read_guard() {
    let rwlock = RwLock::new(0);

    let _rguard1 = rwlock.read_within(u64::MAX).unwrap();

    // Would give up if two read guards could not coexist.
    let _rguard2 = rwlock.read_within(u64::MAX).unwrap();
}

#[test]
fn try_read_on_unlocked() {
    let rwlock = RwLock::new(0);

    assert!(rwlock.try_read().is_some());
}

#[test]
fn try_read_on_locked() {
    let rwlock = RwLock::new(0);

    let _wguard = rwlock.write_within(u64::MAX).unwrap();

    assert!(rwlock.try_read().is_none());
}

#[test]
fn try_write_on_unlocked() {
    let rwlock = RwLock::new(0);

    assert!(rwlock.try_write().is_some());
}

#[test]
fn try_write_on_locked() {
    let rwlock = RwLock::new(0);

    let _rguard = rwlock.read_within(u64::MAX).unwrap();

    assert!(rwlock.try_write().is_none());
}

#[test]
fn many_read_guards_coexist() {
    let rwlock = RwLock::new(5);

    let mut guards = Vec::new();
    for _ in 0..100 {
        guards.push(rwlock.try_read().unwrap());
    }
    for _ in 0..100 {
        guards.push(rwlock.read_within(0).unwrap());
    }

    assert_eq!(guards.len(), 200);
    assert!(guards.iter().all(|g| **g == 5));
    assert!(rwlock.try_write().is_none());
}

#[test]
fn write_refused_until_last_reader_leaves() {
    let rwlock = RwLock::new(0);

    let first = rwlock.try_read().unwrap();
    let second = rwlock.try_read().unwrap();
    assert!(rwlock.try_write().is_none());
    drop(first);
    assert!(rwlock.try_write().is_none());
    assert!(rwlock.write_within(100).is_none());
    drop(second);

    assert!(rwlock.try_write().is_some());
}

#[test]
fn read_refused_while_writing_and_word_restored() {
    let rwlock = RwLock::new(0);

    let wguard = rwlock.try_write().unwrap();
    assert!(rwlock.try_read().is_none());
    assert!(rwlock.try_read().is_none());
    assert!(rwlock.read_within(100).is_none());
    assert!(rwlock.try_write().is_none());
    drop(wguard);

    // The undone increments left the word free.
    let wguard = rwlock.try_write().unwrap();
    drop(wguard);
    assert!(rwlock.try_read().is_some());
}

#[test]
fn try_write_after_write_guard_dropped() {
    let rwlock = RwLock::new(3);

    let wguard = rwlock.write_within(0).unwrap();
    assert_eq!(*wguard, 3);
    drop(wguard);

    assert!(rwlock.try_write().is_some());
}

#[test]
fn reader_blocks_writer_until_dropped() {
    let rwlock = RwLock::new(0);

    let rguard = rwlock.read_within(0).unwrap();
    assert!(rwlock.try_write().is_none());
    drop(rguard);

    assert!(rwlock.try_write().is_some());
}

#[test]
fn writer_blocks_reader_until_dropped() {
    let rwlock = RwLock::new(0);

    let wguard = rwlock.write_within(0).unwrap();
    assert!(rwlock.try_read().is_none());
    drop(wguard);

    assert!(rwlock.try_read().is_some());
}

#[test]
fn default_rwlock_is_free_with_default_payload() {
    let rwlock: RwLock<i64> = RwLock::default();

    let guard = rwlock.try_write().unwrap();
    assert_eq!(*guard, 0);
}

#[test]
fn read_target_values() {
    assert_eq!(read_target(FREE), Some(1));
    assert_eq!(read_target(41), Some(42));
    assert_eq!(read_target(WRITER), None);
    assert_eq!(read_target(-5), None);
    assert_eq!(read_target(isize::MAX), None);
    assert_eq!(read_target(isize::MAX - 1), Some(isize::MAX));
}

#[test]
fn reader_admitted_values() {
    assert!(reader_admitted(0));
    assert!(reader_admitted(9));
    assert!(!reader_admitted(-1));
    assert!(!reader_admitted(isize::MIN));
    assert!(!reader_admitted(isize::MAX));
}

#[test]
fn writer_may_retry_values() {
    assert!(writer_may_retry(0));
    assert!(!writer_may_retry(-1));
    assert!(!writer_may_retry(3));
}

#[test]
fn value_written_is_read_back() {
    let rwlock = RwLock::new(std::cell::Cell::new(0i32));

    let wguard = rwlock.write_within(0).unwrap();
    wguard.set(42);
    drop(wguard);

    let rguard = rwlock.read_within(0).unwrap();
    assert_eq!(rguard.get(), 42);
    let second = rwlock.try_read().unwrap();
    assert_eq!(second.get(), 42);
}

#[test]
fn two_contexts_count_under_write_guard() {
    let count = RwLock::new(std::cell::Cell::new(0u64));

    for _ in 0..1_000_000 {
        for _context in 0..2 {
            let guard = count.write_within(0).unwrap();
            guard.set(guard.get() + 1);
        }
        assert!(count.read_within(0).unwrap().get() >= 1);
    }

    assert_eq!(count.try_read().unwrap().get(), 2_000_000);
}
