use spinlock::mutex::{exchange_outcome, try_lock_outcome};
use spinlock::Mutex;

#[test]
fn try_lock_on_unlocked() {
    let mutex = Mutex::new(0);

    assert!(mutex.try_lock().is_some());
}

#[test]
fn try_lock_on_locked() {
    let mutex = Mutex::new(0);

    let _guard = mutex.lock_within(u64::MAX).unwrap();

    assert!(mutex.try_lock().is_none());
}

#[test]
fn try_lock_again_after_guard_dropped() {
    let mutex = Mutex::new(7);

    let guard = mutex.try_lock().unwrap();
    assert!(mutex.try_lock().is_none());
    drop(guard);

    let guard = mutex.try_lock().unwrap();
    assert_eq!(*guard, 7);
}

#[test]
fn lock_within_gives_up_on_held_lock() {
    let mutex = Mutex::new(0);

    let _guard = mutex.lock_within(0).unwrap();

    assert!(mutex.lock_within(0).is_none());
    assert!(mutex.lock_within(1000).is_none());
}

#[test]
fn lock_within_takes_free_lock_at_once() {
    let mutex = Mutex::new(String::from("payload"));

    let guard = mutex.lock_within(0).unwrap();

    assert_eq!(guard.as_str(), "payload");
}

#[test]
fn default_mutex_is_unlocked_with_default_payload() {
    let mutex: Mutex<u32> = Mutex::default();

    let guard = mutex.try_lock().unwrap();
    assert_eq!(*guard, 0);
}

#[test]
fn try_lock_decision_table() {
    assert!(try_lock_outcome(false, false));
    assert!(!try_lock_outcome(false, true));
    assert!(!try_lock_outcome(true, false));
    assert!(!try_lock_outcome(true, true));
}

#[test]
fn exchange_decision_table() {
    assert!(exchange_outcome(false));
    assert!(!exchange_outcome(true));
}

#[test]
fn two_contexts_count_to_two_million() {
    // Two contexts take turns on one counter, each adding one a million
    // times under the lock.
    let count = Mutex::new(std::cell::Cell::new(0u64));

    for _ in 0..1_000_000 {
        for _context in 0..2 {
            let guard = count.lock_within(0).unwrap();
            guard.set(guard.get() + 1);
        }
    }

    assert_eq!(count.try_lock().unwrap().get(), 2_000_000);
}
