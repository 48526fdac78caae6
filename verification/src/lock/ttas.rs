//! The test-and-test-and-set lock, and its backoff-throttled variant.
//!
//! TTAS reads the flag before attempting the swap, so a contended lock is
//! polled cheaply; the backoff variant additionally spends a randomized,
//! exponentially growing delay between failed attempts.  Neither changes
//! what an acquisition means, only how often the flag is hammered, so both
//! share the test-and-set state and contracts.

use vstd::prelude::*;
use crate::backoff::Backoff;
use crate::guard::TasGuard;
use crate::lock::{BorrowError, Lock, LockRef, UnboundedLock};

verus! {

/// One flag, as in the test-and-set lock; only the polling discipline
/// differs.
pub struct TtasLock {
    locked: bool,
}

impl TtasLock {
    /// Whether the lock is held.
    pub closed spec fn locked(&self) -> bool {
        self.locked
    }

    /// One test-then-swap round: succeed exactly when the flag was clear.
    /// A concurrent run first watches the flag with plain loads;
    /// that watching ends in the very state this test observes.
    pub fn try_acquire(&mut self) -> (r: bool)
        ensures
            r <==> !old(self).locked(),
            final(self).locked(),
    {
        if self.locked {
            false
        } else {
            self.locked = true;
            true
        }
    }

    /// Release the held exclusion, spending the guard.
    pub fn release(&mut self, guard: TasGuard)
        ensures
            !final(self).locked(),
    {
        let _ = guard;
        self.locked = false;
    }
}

impl Lock for TtasLock {
    type Ref = ();

    open spec fn borrowable(&self) -> bool {
        true
    }

    open spec fn borrowed(pre: &Self, post: &Self, r: &()) -> bool {
        post == pre
    }

    fn borrow(&mut self) -> (r: Result<(), BorrowError>) {
        Ok(())
    }
}

impl UnboundedLock for TtasLock {
    fn new() -> (r: Self)
        ensures
            !r.locked(),
    {
        TtasLock { locked: false }
    }

    proof fn always_borrowable(&self) {
    }
}

impl LockRef<TtasLock> for () {
    type Guard = TasGuard;

    open spec fn can_acquire(&self, lock: &TtasLock) -> bool {
        !lock.locked()
    }

    open spec fn acquired(&self, pre: &TtasLock, post: &TtasLock, g: &TasGuard) -> bool {
        post.locked()
    }

    fn acquire(&self, lock: &mut TtasLock) -> (g: TasGuard) {
        let _granted = lock.try_acquire();
        TasGuard::new()
    }
}

/// The initial backoff delay of the backoff lock, in nanoseconds.
pub const BACKOFF_MIN_DELAY: u64 = 1000000;

/// The backoff delay ceiling of the backoff lock, in nanoseconds.
pub const BACKOFF_MAX_DELAY: u64 = 1000000000;

/// The TTAS lock with randomized exponential backoff between attempts.
pub struct BackoffLock {
    ttas: TtasLock,
    min_delay: u64,
    max_delay: u64,
}

impl BackoffLock {
    /// Whether the lock is held.
    pub closed spec fn locked(&self) -> bool {
        self.ttas.locked()
    }

    /// The initial delay a contending participant backs off for.
    pub closed spec fn min_delay(&self) -> u64 {
        self.min_delay
    }

    /// The ceiling the backoff delay never grows past.
    pub closed spec fn max_delay(&self) -> u64 {
        self.max_delay
    }

    /// The backoff state a participant starts a contended acquisition
    /// with.  Between failed attempts a concurrent run spends
    /// `Backoff::backoff` delays drawn from this state.
    pub fn fresh_backoff(&self) -> (r: Backoff)
        requires
            1 <= self.min_delay(),
            1 <= self.max_delay(),
        ensures
            r.limit() == self.min_delay(),
            r.max_limit() == self.max_delay(),
            r.wf(),
    {
        Backoff::new(self.min_delay, self.max_delay)
    }

    /// Release the held exclusion, spending the guard.
    pub fn release(&mut self, guard: TasGuard)
        ensures
            !final(self).locked(),
    {
        self.ttas.release(guard);
    }
}

impl Lock for BackoffLock {
    type Ref = ();

    open spec fn borrowable(&self) -> bool {
        true
    }

    open spec fn borrowed(pre: &Self, post: &Self, r: &()) -> bool {
        post == pre
    }

    fn borrow(&mut self) -> (r: Result<(), BorrowError>) {
        Ok(())
    }
}

impl UnboundedLock for BackoffLock {
    fn new() -> (r: Self)
        ensures
            !r.locked(),
            r.min_delay() == BACKOFF_MIN_DELAY,
            r.max_delay() == BACKOFF_MAX_DELAY,
    {
        BackoffLock {
            ttas: TtasLock { locked: false },
            min_delay: BACKOFF_MIN_DELAY,
            max_delay: BACKOFF_MAX_DELAY,
        }
    }

    proof fn always_borrowable(&self) {
    }
}

impl LockRef<BackoffLock> for () {
    type Guard = TasGuard;

    open spec fn can_acquire(&self, lock: &BackoffLock) -> bool {
        !lock.locked()
    }

    open spec fn acquired(&self, pre: &BackoffLock, post: &BackoffLock, g: &TasGuard) -> bool {
        post.locked()
    }

    fn acquire(&self, lock: &mut BackoffLock) -> (g: TasGuard) {
        let _granted = lock.ttas.try_acquire();
        TasGuard::new()
    }
}

/// In the sequential model an acquisition locks the flag: no further
/// acquisition can begin until the holder releases.
pub proof fn lemma_ttas_mutual_exclusion(
    r1: &(),
    pre: &TtasLock,
    post: &TtasLock,
    g: &TasGuard,
    r2: &(),
)
    requires
        LockRef::<TtasLock>::acquired(r1, pre, post, g),
    ensures
        !LockRef::<TtasLock>::can_acquire(r2, post),
{
}

/// The same exclusion for the backoff variant: backoff delays change when
/// attempts happen, never what an acquisition means.
pub proof fn lemma_backoff_mutual_exclusion(
    r1: &(),
    pre: &BackoffLock,
    post: &BackoffLock,
    g: &TasGuard,
    r2: &(),
)
    requires
        LockRef::<BackoffLock>::acquired(r1, pre, post, g),
    ensures
        !LockRef::<BackoffLock>::can_acquire(r2, post),
{
}

} // verus!
