//! The timeout-capable queue lock.
//!
//! Queueing works as in the CLH lock: an acquirer swaps a fresh handshake
//! into the tail and inherits the previous tail as its predecessor chain.
//! Instead of waiting outright, `try_acquire` polls the chain against a
//! deadline, collapsing every predecessor that has already been released;
//! when the deadline passes first, it re-attaches the uncollapsed
//! remainder of the chain behind its own — released — node, so no
//! predecessor is lost or woken twice, and reports that the lock was not
//! acquired.  Timing out is a normal outcome, not an error.

use vstd::prelude::*;
use crate::acqrel::{
    lemma_chain_nonempty,
    lemma_chain_unfold,
    lemma_collapsed_head_blocked,
    lemma_collapsed_released,
    lemma_collapsed_unfold,
    AcquireBox,
    RecursiveAcquire,
};
use crate::guard::ReleaseGuard;
use crate::lock::{BorrowError, Lock, LockRef, UnboundedLock};

verus! {

/// The guard of the timeout lock: the release token of the holder's own
/// queue node.
pub type TimeoutGuard = ReleaseGuard<Option<RecursiveAcquire>>;

/// The tail slot: the predecessor chain an arriving acquirer inherits.
pub struct TimeoutLock {
    tail: RecursiveAcquire,
}

impl TimeoutLock {
    /// The queue as the chain hanging off the tail.
    pub closed spec fn queue(&self) -> Seq<bool> {
        self.tail.chain()
    }

    /// What remains of the queue once every released predecessor is
    /// collapsed away.
    pub closed spec fn pending(&self) -> Option<RecursiveAcquire> {
        self.tail.collapsed()
    }

    /// Whether the queue is clear, so the next acquirer enters at once.
    pub open spec fn queue_clear(&self) -> bool {
        self.pending() is None
    }

    /// Attempt to acquire within `timeout` nanoseconds: poll the
    /// predecessor chain until it collapses or the deadline passes.  The
    /// outcome reports exactly whether the queue was clear; the deadline
    /// bounds how long a contended attempt keeps polling.
    pub fn try_acquire(&mut self, timeout: u64) -> (r: Option<TimeoutGuard>)
        ensures
            r is Some <==> old(self).queue_clear(),
            old(self).queue_clear() ==> final(self).queue() == seq![false],
            !old(self).queue_clear() ==> final(self).pending() == old(self).pending(),
            !final(self).queue_clear(),
    {
        let start = monotonic_now();
        let (next, release) = AcquireBox::new(None);
        let mut prev = RecursiveAcquire::new(next);
        core::mem::swap(&mut self.tail, &mut prev);
        let ghost inherited = prev;
        proof {
            lemma_chain_of_fresh(self.tail);
            lemma_collapsed_unfold(self.tail);
        }
        let mut pending = prev.try_recur();
        let mut polls_left: u64 = u64::MAX;
        loop
            invariant
                inherited == old(self).tail,
                pending == inherited.collapsed(),
                self.tail.chain() == seq![false],
                !self.tail.head_released(),
                self.tail.next_of() is None,
                self.pending() == Option::Some(self.tail),
            decreases polls_left,
        {
            match pending {
                None => {
                    return Some(ReleaseGuard::new(release));
                },
                Some(rem) => {
                    proof {
                        lemma_collapsed_head_blocked(inherited);
                    }
                    if polls_left == 0 || elapsed_nanos(&start) >= timeout {
                        self.tail.put_next(Some(rem));
                        self.tail.release_head(release);
                        proof {
                            lemma_collapsed_unfold(self.tail);
                        }
                        return None;
                    }
                    polls_left = polls_left - 1;
                    pending = rem.try_recur();
                },
            }
        }
    }

    /// Release the held exclusion: spend the guard's token on the
    /// holder's own node.  Every attempt since the holder entered has
    /// stacked its node on top, so the holder's node is the deepest link
    /// of the tail chain.
    pub fn release(&mut self, guard: TimeoutGuard)
        ensures
            final(self).queue() == old(self).queue().update(old(self).queue().len() - 1, true),
            (forall|i: int| 0 <= i < old(self).queue().len() - 1 ==> old(self).queue()[i])
                ==> final(self).queue_clear(),
    {
        let mut chain = RecursiveAcquire::new(AcquireBox::acquired(None));
        core::mem::swap(&mut self.tail, &mut chain);
        let mut chain = chain.release_last(guard.into_release());
        core::mem::swap(&mut self.tail, &mut chain);
        proof {
            lemma_chain_nonempty(old(self).tail);
            lemma_collapsed_released(self.tail);
            let before = old(self).queue();
            if forall|i: int| 0 <= i < before.len() - 1 ==> before[i] {
                assert forall|i: int| 0 <= i < self.queue().len() implies self.queue()[i] by {
                    if i < before.len() - 1 {
                        assert(self.queue()[i] == before[i]);
                    }
                }
            }
        }
    }
}

/// The chain of a fresh, unreleased node with nothing behind it.
proof fn lemma_chain_of_fresh(r: RecursiveAcquire)
    requires
        !r.head_released(),
        r.next_of() is None,
    ensures
        r.chain() == seq![false],
{
    lemma_chain_unfold(r);
    assert(r.chain() =~= seq![false]);
}

impl Lock for TimeoutLock {
    type Ref = ();

    open spec fn borrowable(&self) -> bool {
        true
    }

    open spec fn borrowed(pre: &Self, post: &Self, r: &()) -> bool {
        post == pre
    }

    fn borrow(&mut self) -> (r: Result<(), BorrowError>) {
        Ok(())
    }
}

impl UnboundedLock for TimeoutLock {
    fn new() -> (r: Self)
        ensures
            r.queue_clear(),
    {
        let seed = RecursiveAcquire::new(AcquireBox::acquired(None));
        proof {
            lemma_collapsed_unfold(seed);
        }
        TimeoutLock { tail: seed }
    }

    proof fn always_borrowable(&self) {
    }
}

impl LockRef<TimeoutLock> for () {
    type Guard = TimeoutGuard;

    open spec fn can_acquire(&self, lock: &TimeoutLock) -> bool {
        lock.queue_clear()
    }

    open spec fn acquired(&self, pre: &TimeoutLock, post: &TimeoutLock, g: &TimeoutGuard) -> bool {
        &&& post.queue() == seq![false]
        &&& !post.queue_clear()
    }

    /// Swap a fresh node into the tail and inherit the predecessor chain;
    /// the precondition grants that the chain has fully collapsed — the
    /// state a concurrent run waits for — so it is discarded and
    /// entry is immediate.
    fn acquire(&self, lock: &mut TimeoutLock) -> (g: TimeoutGuard) {
        let (next, release) = AcquireBox::new(None);
        let mut prev = RecursiveAcquire::new(next);
        core::mem::swap(&mut lock.tail, &mut prev);
        proof {
            lemma_chain_of_fresh(lock.tail);
            lemma_collapsed_unfold(lock.tail);
        }
        let _ = prev;
        ReleaseGuard::new(release)
    }
}

/// In the handshake model an acquisition occupies the queue: no further
/// acquisition can begin until the holder releases.
pub proof fn lemma_timeout_mutual_exclusion(
    r1: &(),
    pre: &TimeoutLock,
    post: &TimeoutLock,
    g: &TimeoutGuard,
    r2: &(),
)
    requires
        LockRef::<TimeoutLock>::acquired(r1, pre, post, g),
    ensures
        !LockRef::<TimeoutLock>::can_acquire(r2, post),
{
}

/// Relies on `std::time::Instant::now`: an opaque monotonic timestamp
/// taken from the clock; nothing is assumed of it.
#[verifier::external_body]
fn monotonic_now() -> std::time::Instant {
    std::time::Instant::now()
}

/// Relies on `std::time::Instant::elapsed`: the nanoseconds since
/// `start`, saturated into a `u64`.  The value depends on the clock, so
/// nothing is assumed of it.
#[verifier::external_body]
fn elapsed_nanos(start: &std::time::Instant) -> u64 {
    u64::try_from(start.elapsed().as_nanos()).unwrap_or(u64::MAX)
}

/// Declares `std::time::Instant` so that timestamps can be carried
/// through verified code; values of it stay opaque.
#[verifier::external_type_specification]
#[verifier::external_body]
pub struct ExInstant(std::time::Instant);

} // verus!
