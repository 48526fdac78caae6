//! The test-and-set lock: a single locked flag, taken by atomic swap.
//!
//! Besides the executable lock, this module carries the protocol as a
//! spec-level transition system over any number of participants and
//! proves its mutual exclusion inductively, along every interleaving.

use vstd::prelude::*;
use crate::guard::TasGuard;
use crate::lock::{BorrowError, Lock, LockRef, UnboundedLock};

verus! {

/// The whole state is one flag: whether the lock is held.
pub struct TasLock {
    locked: bool,
}

impl TasLock {
    /// Whether the lock is held.
    pub closed spec fn locked(&self) -> bool {
        self.locked
    }

    /// Release the held exclusion, spending the guard.
    pub fn release(&mut self, guard: TasGuard)
        ensures
            !final(self).locked(),
    {
        let _ = guard;
        self.locked = false;
    }
}

impl Lock for TasLock {
    type Ref = ();

    open spec fn borrowable(&self) -> bool {
        true
    }

    open spec fn borrowed(pre: &Self, post: &Self, r: &()) -> bool {
        post == pre
    }

    fn borrow(&mut self) -> (r: Result<(), BorrowError>) {
        Ok(())
    }
}

impl UnboundedLock for TasLock {
    fn new() -> (r: Self)
        ensures
            !r.locked(),
    {
        TasLock { locked: false }
    }

    proof fn always_borrowable(&self) {
    }
}

/// Acquiring swaps the flag to true; on real threads the entry test
/// is the swap observing false.
impl LockRef<TasLock> for () {
    type Guard = TasGuard;

    open spec fn can_acquire(&self, lock: &TasLock) -> bool {
        !lock.locked()
    }

    open spec fn acquired(&self, pre: &TasLock, post: &TasLock, g: &TasGuard) -> bool {
        post.locked()
    }

    fn acquire(&self, lock: &mut TasLock) -> (g: TasGuard) {
        lock.locked = true;
        TasGuard::new()
    }
}

/// In the sequential model an acquisition locks the flag: no further
/// acquisition can begin until the holder releases.
pub proof fn lemma_tas_mutual_exclusion(r1: &(), pre: &TasLock, post: &TasLock, g: &TasGuard, r2: &())
    requires
        LockRef::<TasLock>::acquired(r1, pre, post, g),
    ensures
        !LockRef::<TasLock>::can_acquire(r2, post),
{
}

/// Where a participant of the test-and-set protocol stands: outside or
/// inside the critical section.
pub enum TasPc {
    Idle,
    Critical,
}

/// A snapshot of the protocol run by any number of participants: the
/// shared flag and every participant's program counter.
pub struct TasState {
    pub locked: bool,
    pub pcs: Seq<TasPc>,
}

/// One atomic step of participant `i`: the swap that observes the flag
/// clear and takes it, or the store that releases it.
pub enum TasStep {
    Take,
    Release,
}

/// The transition relation: `post` follows from `pre` by participant `i`
/// taking `step`.
pub open spec fn tas_step(pre: TasState, i: int, step: TasStep, post: TasState) -> bool {
    &&& 0 <= i < pre.pcs.len()
    &&& match step {
        TasStep::Take => {
            &&& pre.pcs[i] is Idle
            &&& !pre.locked
            &&& post == (TasState { locked: true, pcs: pre.pcs.update(i, TasPc::Critical) })
        },
        TasStep::Release => {
            &&& pre.pcs[i] is Critical
            &&& post == (TasState { locked: false, pcs: pre.pcs.update(i, TasPc::Idle) })
        },
    }
}

/// Nobody holds the lock and the flag is down.
pub open spec fn tas_init(s: TasState) -> bool {
    &&& !s.locked
    &&& forall|i: int| 0 <= i < s.pcs.len() ==> (#[trigger] s.pcs[i]) is Idle
}

/// The inductive invariant: critical sections are pairwise exclusive and
/// an occupied critical section keeps the flag up.
pub open spec fn tas_inv(s: TasState) -> bool {
    &&& forall|i: int, j: int|
        0 <= i < s.pcs.len() && 0 <= j < s.pcs.len() && i != j ==> !((#[trigger] s.pcs[i])
            is Critical && (#[trigger] s.pcs[j]) is Critical)
    &&& forall|i: int| 0 <= i < s.pcs.len() && (#[trigger] s.pcs[i]) is Critical ==> s.locked
}

/// The initial state satisfies the invariant.
pub proof fn lemma_tas_init(s: TasState)
    requires
        tas_init(s),
    ensures
        tas_inv(s),
{
}

/// Every step of any participant preserves the invariant: this is mutual
/// exclusion for the whole test-and-set family, for any number of
/// concurrent acquirers.
pub proof fn lemma_tas_step_preserves_inv(pre: TasState, i: int, step: TasStep, post: TasState)
    requires
        tas_inv(pre),
        tas_step(pre, i, step, post),
    ensures
        tas_inv(post),
{
    match step {
        TasStep::Take => {
            assert forall|k: int|
                0 <= k < pre.pcs.len() && k != i implies !((#[trigger] pre.pcs[k])
                is Critical) by {
                if pre.pcs[k] is Critical {
                    assert(pre.locked);
                }
            }
        },
        TasStep::Release => {},
    }
}

/// A run of the protocol: `trace` lists the states passed through and
/// `moves` the steps between them, each taken by some participant.
pub open spec fn tas_trace(trace: Seq<TasState>, moves: Seq<(int, TasStep)>) -> bool {
    &&& trace.len() == moves.len() + 1
    &&& forall|k: int|
        0 <= k < moves.len() ==> #[trigger] tas_step(trace[k], moves[k].0, moves[k].1, trace[k + 1])
}

/// Every state of a run that starts in an initial state satisfies the
/// invariant, whatever the interleaving.
pub proof fn lemma_tas_trace_inv(trace: Seq<TasState>, moves: Seq<(int, TasStep)>, k: int)
    requires
        tas_init(trace[0]),
        tas_trace(trace, moves),
        0 <= k < trace.len(),
    ensures
        tas_inv(trace[k]),
    decreases k,
{
    if k == 0 {
        lemma_tas_init(trace[0]);
    } else {
        lemma_tas_trace_inv(trace, moves, k - 1);
        let j = k - 1;
        assert(tas_step(trace[j], moves[j].0, moves[j].1, trace[j + 1]));
        lemma_tas_step_preserves_inv(trace[j], moves[j].0, moves[j].1, trace[j + 1]);
    }
}

} // verus!
