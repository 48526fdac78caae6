use spinlocks::acqrel::{AcquireBox, RecursiveAcquire};
use spinlocks::atomic::Atomic;
use spinlocks::backoff::Backoff;
use spinlocks::notify::Wait;
use std::sync::atomic::Ordering;

#[test]
fn atomic_swap_returns_previous() {
    let mut cell = Atomic::new(1u64);
    assert_eq!(cell.swap(2, Ordering::SeqCst), 1);
    assert_eq!(cell.swap(3, Ordering::SeqCst), 2);
    assert_eq!(cell.into_inner(), 3);
}

#[test]
fn atomic_swap_yields_each_value_once() {
    let mut cell = Atomic::new(10u64);
    let mut seen = vec![];
    seen.push(cell.swap(11, Ordering::SeqCst));
    seen.push(cell.swap(12, Ordering::SeqCst));
    seen.push(cell.swap(13, Ordering::SeqCst));
    seen.push(cell.into_inner());
    assert_eq!(seen, vec![10, 11, 12, 13]);
}

#[test]
fn atomic_load_store() {
    let mut cell = Atomic::new(false);
    assert!(!cell.load(Ordering::SeqCst));
    cell.store(true, Ordering::SeqCst);
    assert!(cell.load(Ordering::SeqCst));
}

#[test]
fn atomic_compare_swap_success() {
    let mut cell = Atomic::new(5u64);
    match cell.compare_swap_strong(5, 9, Ordering::SeqCst) {
        Ok(old) => assert_eq!(old, 5),
        Err(_) => panic!("compare-and-swap with the held identity must succeed"),
    }
    assert_eq!(cell.load(Ordering::SeqCst), 9);
}

#[test]
fn atomic_compare_swap_failure_returns_new_value() {
    let mut cell = Atomic::new(9u64);
    match cell.compare_swap_strong(5, 7, Ordering::SeqCst) {
        Ok(_) => panic!("compare-and-swap with a stale identity must fail"),
        Err(new) => assert_eq!(new, 7),
    }
    assert_eq!(cell.load(Ordering::SeqCst), 9);
}

#[test]
fn atomic_compare_swap_weak_matches_strong() {
    let mut cell = Atomic::new(4u32);
    assert_eq!(cell.compare_swap_weak(4, 6, Ordering::AcqRel), Ok(4));
    assert_eq!(cell.compare_swap_weak(4, 8, Ordering::AcqRel), Err(8));
    assert_eq!(cell.load(Ordering::SeqCst), 6);
}

#[test]
fn atomic_take_empties_the_option() {
    let mut cell = Atomic::new(Some(3u64));
    assert_eq!(cell.take(Ordering::SeqCst), Some(3));
    assert_eq!(cell.take(Ordering::SeqCst), None);
}

#[test]
fn handshake_payload_hidden_until_notify() {
    let (mut wait, notify) = Wait::with(7u32);
    assert!(wait.try_wait().is_err());
    assert!(wait.try_wait_mut().is_err());
    notify.notify(&mut wait);
    assert_eq!(wait.try_wait(), Ok(&7));
    assert_eq!(*wait.wait(), 7);
}

#[test]
fn handshake_already_notified_is_readable_at_once() {
    let wait = Wait::already_notified_with(11u8);
    assert_eq!(wait.try_wait(), Ok(&11));
    assert_eq!(*wait.wait(), 11);
}

#[test]
fn handshake_wait_mut_gives_exclusive_payload() {
    let (mut wait, notify) = Wait::with(1u32);
    notify.notify(&mut wait);
    *wait.wait_mut() = 5;
    assert_eq!(*wait.wait(), 5);
}

#[test]
fn handshake_notifier_writes_payload_before_signalling() {
    let (mut wait, notify) = Wait::with(0u32);
    notify.put(&mut wait, 8);
    assert!(wait.try_wait().is_err(), "a payload write must not signal");
    notify.put(&mut wait, 9);
    notify.notify(&mut wait);
    assert_eq!(wait.try_wait(), Ok(&9));
}

#[test]
fn handshake_notify_with_hands_the_payload_over() {
    let (mut wait, notify) = Wait::with(0u32);
    assert!(wait.try_wait().is_err());
    notify.notify_with(&mut wait, 12);
    assert_eq!(wait.try_wait(), Ok(&12));
    assert_eq!(*wait.wait(), 12);
}

#[test]
fn handshake_reset_rearms_the_pair() {
    let mut wait = Wait::already_notified_with(2u32);
    let notify = wait.wait_reset();
    assert!(wait.try_wait().is_err());
    notify.notify(&mut wait);
    assert_eq!(wait.try_wait(), Ok(&2));
}

#[test]
fn handshake_defaulted_pair() {
    let (mut wait, notify) = Wait::<u64>::new();
    assert!(wait.try_wait().is_err());
    notify.notify(&mut wait);
    assert!(wait.try_wait().is_ok());
    let ready = Wait::<u64>::already_notified();
    assert!(ready.try_wait().is_ok());
}

#[test]
fn acquire_box_payload_hidden_until_release() {
    let (mut acquire, release) = AcquireBox::new(10u32);
    assert!(acquire.try_as_ref().is_err());
    assert!(acquire.try_as_mut().is_err());
    release.release(&mut acquire);
    assert_eq!(acquire.try_as_ref(), Ok(&10));
    assert_eq!(*acquire.as_ref(), 10);
}

#[test]
fn acquire_box_reset_rearms() {
    let mut acquire = AcquireBox::acquired(5u32);
    assert_eq!(acquire.try_as_ref(), Ok(&5));
    let release = acquire.reset();
    assert!(acquire.try_as_ref().is_err());
    release.release(&mut acquire);
    *acquire.as_mut() = 6;
    assert_eq!(*acquire.as_ref(), 6);
}

#[test]
fn acquire_box_put_overwrites_payload() {
    let (mut acquire, release) = AcquireBox::new(1u32);
    acquire.put(2);
    assert!(acquire.try_as_ref().is_err());
    release.release(&mut acquire);
    assert_eq!(*acquire.as_ref(), 2);
}

#[test]
fn acquire_box_defaulted() {
    let (acquire, _release) = AcquireBox::<u8>::default();
    assert!(acquire.try_as_ref().is_err());
    let ready = AcquireBox::<u8>::default_acquired();
    assert_eq!(ready.try_as_ref(), Ok(&0));
}

#[test]
fn recursive_acquire_collapses_released_chain() {
    let chain = RecursiveAcquire::new(AcquireBox::acquired(None));
    assert!(chain.try_recur().is_none());
}

#[test]
fn recursive_acquire_stops_at_withheld_link() {
    let (link, _release) = AcquireBox::new(None);
    let chain = RecursiveAcquire::new(link);
    assert!(chain.try_recur().is_some());
}

#[test]
fn recursive_acquire_collapses_released_prefix() {
    let (blocked_link, _release) = AcquireBox::new(None);
    let blocked = RecursiveAcquire::new(blocked_link);
    let chain = RecursiveAcquire::new(AcquireBox::acquired(Some(blocked)));
    let rest = chain.try_recur().expect("the withheld tail must remain");
    assert!(rest.try_recur().is_some());
}

#[test]
fn atomic_compare_swap_on_bool_identity() {
    let mut cell = Atomic::new(true);
    assert_eq!(cell.compare_swap_strong(0, true, Ordering::SeqCst), Err(true));
    assert_eq!(cell.compare_swap_strong(1, false, Ordering::SeqCst), Ok(true));
    assert!(!cell.load(Ordering::SeqCst));
}

#[test]
fn backoff_delays_stay_below_the_doubling_limit() {
    let mut backoff = Backoff::new(1000, 8000);
    assert!(backoff.backoff() < 1000);
    assert!(backoff.backoff() < 2000);
    assert!(backoff.backoff() < 4000);
    assert!(backoff.backoff() < 8000);
    // The limit is capped at the ceiling from here on.
    for _ in 0..16 {
        assert!(backoff.backoff() < 8000);
    }
}

#[test]
fn backoff_minimal_limit_gives_zero_delay() {
    let mut backoff = Backoff::new(1, 1);
    assert_eq!(backoff.backoff(), 0);
    assert_eq!(backoff.backoff(), 0);
}
