use std::time::{Duration, Instant};

use spinlocks::lock::{
    ArrayLock, BackoffLock, BakeryLock, BorrowError, BoundedLock, ClhLock, FilterLock, Lock,
    LockRef, McsLock, PetersonLock, TasLock, TimeoutLock, TtasLock, UnboundedLock,
};

#[test]
fn peterson_capacity_enforced() {
    let mut lock = PetersonLock::with_capacity(2);
    assert_eq!(lock.capacity(), 2);
    assert_eq!(lock.refs_left(), 2);
    let r1 = lock.borrow().unwrap();
    let r2 = lock.borrow().unwrap();
    assert_eq!(lock.refs_left(), 0);
    match lock.borrow() {
        Ok(_) => panic!("a third borrow must be refused"),
        Err(e) => assert_eq!(e, BorrowError::ThreadCapacityExceeded),
    }
    lock.unborrow(r1);
    assert_eq!(lock.refs_left(), 1);
    let r3 = lock.borrow().unwrap();
    lock.unborrow(r2);
    lock.unborrow(r3);
    assert_eq!(lock.refs_left(), 2);
}

#[test]
fn peterson_acquire_release_alternating() {
    let mut lock = PetersonLock::with_capacity(2);
    let r1 = lock.borrow().unwrap();
    let r2 = lock.borrow().unwrap();
    for _ in 0..8 {
        let g = r1.acquire(&mut lock);
        lock.release(g);
        let g = r2.acquire(&mut lock);
        lock.release(g);
    }
    lock.unborrow(r1);
    lock.unborrow(r2);
}

#[test]
fn filter_capacity_enforced() {
    let mut lock = FilterLock::with_capacity(3);
    assert_eq!(lock.capacity(), 3);
    let r1 = lock.borrow().unwrap();
    let r2 = lock.borrow().unwrap();
    let r3 = lock.borrow().unwrap();
    assert_eq!(lock.refs_left(), 0);
    assert_eq!(lock.borrow().unwrap_err(), BorrowError::ThreadCapacityExceeded);
    lock.unborrow(r2);
    let r4 = lock.borrow().unwrap();
    lock.unborrow(r1);
    lock.unborrow(r3);
    lock.unborrow(r4);
}

#[test]
fn filter_zero_capacity_only_refuses_borrows() {
    let mut lock = FilterLock::with_capacity(0);
    assert_eq!(lock.capacity(), 0);
    assert_eq!(lock.refs_left(), 0);
    assert_eq!(lock.borrow().unwrap_err(), BorrowError::ThreadCapacityExceeded);
    assert_eq!(lock.borrow().unwrap_err(), BorrowError::ThreadCapacityExceeded);
}

#[test]
fn filter_acquire_release_cycles() {
    let mut lock = FilterLock::with_capacity(3);
    let r = lock.borrow().unwrap();
    for _ in 0..4 {
        let g = r.acquire(&mut lock);
        lock.release(g);
    }
    lock.unborrow(r);
}

#[test]
fn filter_single_participant() {
    let mut lock = FilterLock::with_capacity(1);
    let r = lock.borrow().unwrap();
    let g = r.acquire(&mut lock);
    lock.release(g);
    lock.unborrow(r);
}

#[test]
fn bakery_capacity_enforced() {
    let mut lock = BakeryLock::with_capacity(2);
    assert_eq!(lock.capacity(), 2);
    let r1 = lock.borrow().unwrap();
    let r2 = lock.borrow().unwrap();
    assert_eq!(lock.borrow().unwrap_err(), BorrowError::ThreadCapacityExceeded);
    lock.unborrow(r1);
    assert!(lock.borrow().is_ok());
    let _ = r2;
}

#[test]
fn bakery_zero_capacity_only_refuses_borrows() {
    let mut lock = BakeryLock::with_capacity(0);
    assert_eq!(lock.capacity(), 0);
    assert_eq!(lock.refs_left(), 0);
    assert_eq!(lock.borrow().unwrap_err(), BorrowError::ThreadCapacityExceeded);
}

#[test]
fn bakery_acquire_release_cycles() {
    let mut lock = BakeryLock::with_capacity(2);
    let r1 = lock.borrow().unwrap();
    let r2 = lock.borrow().unwrap();
    for _ in 0..8 {
        let g = r1.acquire(&mut lock);
        lock.release(g);
        let g = r2.acquire(&mut lock);
        lock.release(g);
    }
    lock.unborrow(r1);
    lock.unborrow(r2);
}

#[test]
fn array_capacity_enforced() {
    let mut lock = ArrayLock::with_capacity(2);
    assert_eq!(lock.capacity(), 2);
    let r1 = lock.borrow().unwrap();
    let r2 = lock.borrow().unwrap();
    assert_eq!(lock.borrow().unwrap_err(), BorrowError::ThreadCapacityExceeded);
    lock.unborrow(r1);
    assert!(lock.borrow().is_ok());
    let _ = r2;
}

#[test]
fn array_tickets_hand_the_slot_onwards() {
    let mut lock = ArrayLock::with_capacity(2);
    let r = lock.borrow().unwrap();
    // Each release raises the next slot of the ring, admitting the next
    // ticket; several full rounds exercise the wrap-around.
    for _ in 0..6 {
        let g = r.acquire(&mut lock);
        lock.release(g);
    }
    lock.unborrow(r);
}

#[test]
fn array_tickets_are_drawn_in_order() {
    let mut lock = ArrayLock::with_capacity(4);
    let r = lock.borrow().unwrap();
    let g1 = r.acquire(&mut lock);
    let t1 = g1.into_slot();
    let g2 = r.acquire(&mut lock);
    let t2 = g2.into_slot();
    assert!(t1 < t2, "a later request must draw a later ticket");
    assert_eq!(t1, 0);
    assert_eq!(t2, 1);
}

#[test]
fn tas_lock_round_trip() {
    let mut lock = TasLock::new();
    let r = lock.borrow().unwrap();
    for _ in 0..4 {
        let g = r.acquire(&mut lock);
        lock.release(g);
    }
}

#[test]
fn ttas_try_acquire_reports_the_flag() {
    let mut lock = TtasLock::new();
    assert!(lock.try_acquire());
    assert!(!lock.try_acquire());
    assert!(!lock.try_acquire());
    let g = spinlocks::guard::TasGuard::new();
    lock.release(g);
    assert!(lock.try_acquire());
}

#[test]
fn ttas_lock_round_trip() {
    let mut lock = TtasLock::new();
    let r = lock.borrow().unwrap();
    let g = r.acquire(&mut lock);
    lock.release(g);
    let g = r.acquire(&mut lock);
    lock.release(g);
}

#[test]
fn backoff_lock_round_trip() {
    let mut lock = BackoffLock::new();
    let r = lock.borrow().unwrap();
    let g = r.acquire(&mut lock);
    lock.release(g);
    let mut pause = lock.fresh_backoff();
    assert!(pause.backoff() < 1_000_000);
    let g = r.acquire(&mut lock);
    lock.release(g);
}

#[test]
fn clh_lock_round_trip() {
    let mut lock = ClhLock::new();
    let r = lock.borrow().unwrap();
    for _ in 0..4 {
        let g = r.acquire(&mut lock);
        lock.release(g);
    }
}

#[test]
fn mcs_lock_round_trip() {
    let mut lock = McsLock::new();
    let r = lock.borrow().unwrap();
    for _ in 0..4 {
        let g = r.acquire(&mut lock);
        lock.release(g);
    }
}

#[test]
fn timeout_lock_uncontended_acquire() {
    let mut lock = TimeoutLock::new();
    let g = lock.try_acquire(0).expect("a free lock must be acquired at once");
    lock.release(g);
    let r = lock.borrow().unwrap();
    let g = r.acquire(&mut lock);
    lock.release(g);
}

#[test]
fn timeout_lock_contended_attempt_times_out() {
    let mut lock = TimeoutLock::new();
    let held = lock.try_acquire(0).expect("a free lock must be acquired at once");
    let started = Instant::now();
    let attempt = lock.try_acquire(50_000_000);
    let waited = started.elapsed();
    assert!(attempt.is_none(), "the lock is held, so the attempt must time out");
    assert!(waited >= Duration::from_millis(50), "the attempt gave up before its deadline");
    assert!(waited < Duration::from_secs(10), "the attempt overstayed its deadline");
    // Once the holder releases, a later attempt succeeds.
    lock.release(held);
    let g = lock.try_acquire(1_000_000).expect("the released lock must be acquired");
    lock.release(g);
}

#[test]
fn timeout_lock_two_expired_attempts_then_success() {
    let mut lock = TimeoutLock::new();
    let held = lock.try_acquire(0).expect("a free lock must be acquired at once");
    assert!(lock.try_acquire(1000).is_none());
    assert!(lock.try_acquire(1000).is_none());
    lock.release(held);
    let g = lock.try_acquire(1000).expect("the released lock must be acquired");
    lock.release(g);
}
