//! The CLH queue lock: an implicit queue through the swapped tail.
//!
//! Every acquirer creates a fresh handshake box, swaps it into the tail
//! slot and receives the previous tail — its predecessor's box — in
//! exchange; it waits on that box and discards it once released, keeping
//! the release token of its own box as the guard.  The queue thus exists
//! only as the chain of handshakes; the lock itself stores one box.  The
//! tail seed is an already-released box, so the first acquirer never
//! waits.
//!
//! Besides the executable lock, this module carries the queue protocol
//! as a spec-level transition system and proves, along every
//! interleaving, that the released handshakes form a prefix of the queue,
//! that at most one participant is in the critical section, and that
//! admission follows enqueue order.

use vstd::prelude::*;
use crate::acqrel::AcquireBox;
use crate::guard::ReleaseGuard;
use crate::lock::{BorrowError, Lock, LockRef, UnboundedLock};

verus! {

/// The tail slot: the handshake box of the most recent acquirer,
/// together with a ghost stamp standing for that box's identity — on
/// real threads, its pointer.  The slot is an atomic pointer exchanged
/// with the acquirer's fresh box in one step; here the lock owns the box
/// itself and the exchange is one move.
pub struct ClhLock {
    tail: AcquireBox<()>,
    stamp: Ghost<nat>,
}

impl ClhLock {
    /// Whether the queue is clear: the tail box has been released, so the
    /// next acquirer enters at once.
    pub closed spec fn tail_ready(&self) -> bool {
        self.tail.released()
    }

    /// The identity of the current tail box, as contracts see it.
    pub closed spec fn stamp_of(&self) -> nat {
        self.stamp@
    }

    /// Release the held exclusion: spend the guard's token on the
    /// holder's own box, which still sits in the tail slot.  The guard's
    /// stamp must name that box, so only the token of the installed box
    /// releases it.
    pub fn release(&mut self, guard: ReleaseGuard<()>)
        requires
            guard.stamp_of() == old(self).stamp_of(),
        ensures
            final(self).tail_ready(),
            final(self).stamp_of() == old(self).stamp_of(),
    {
        guard.into_release().release(&mut self.tail);
    }
}

impl Lock for ClhLock {
    type Ref = ();

    open spec fn borrowable(&self) -> bool {
        true
    }

    open spec fn borrowed(pre: &Self, post: &Self, r: &()) -> bool {
        post == pre
    }

    fn borrow(&mut self) -> (r: Result<(), BorrowError>) {
        Ok(())
    }
}

impl UnboundedLock for ClhLock {
    fn new() -> (r: Self)
        ensures
            r.tail_ready(),
    {
        ClhLock { tail: AcquireBox::acquired(()), stamp: Ghost(0nat) }
    }

    proof fn always_borrowable(&self) {
    }
}

impl LockRef<ClhLock> for () {
    type Guard = ReleaseGuard<()>;

    open spec fn can_acquire(&self, lock: &ClhLock) -> bool {
        lock.tail_ready()
    }

    open spec fn acquired(&self, pre: &ClhLock, post: &ClhLock, g: &ReleaseGuard<()>) -> bool {
        &&& !post.tail_ready()
        &&& post.stamp_of() == pre.stamp_of() + 1
        &&& g.stamp_of() == post.stamp_of()
    }

    /// Swap a fresh box into the tail; the predecessor's box comes back
    /// released — the precondition grants it — and is discarded, which on
    /// real threads is where the acquirer spins.  The guard carries the
    /// installed box's identity, so exactly this box can be released
    /// through it.
    fn acquire(&self, lock: &mut ClhLock) -> (g: ReleaseGuard<()>) {
        let (next, release) = AcquireBox::new(());
        let mut prev = next;
        core::mem::swap(&mut lock.tail, &mut prev);
        proof {
            assert(prev.released());
        }
        let _ = prev;
        let ghost fresh = lock.stamp@ + 1;
        proof {
            lock.stamp = Ghost(fresh);
        }
        ReleaseGuard::new_stamped(release, Ghost(fresh))
    }
}

/// In the handshake model an acquisition closes the queue behind itself:
/// no further acquisition can begin until the holder releases.
pub proof fn lemma_clh_mutual_exclusion(
    r1: &(),
    pre: &ClhLock,
    post: &ClhLock,
    g: &ReleaseGuard<()>,
    r2: &(),
)
    requires
        LockRef::<ClhLock>::acquired(r1, pre, post, g),
    ensures
        !LockRef::<ClhLock>::can_acquire(r2, post),
{
}

/// Where a participant of the queue protocol stands: outside, waiting on
/// its predecessor's handshake, or inside the critical section.  A
/// participant in the queue remembers the node it installed; its
/// predecessor is the node installed just before.
pub enum ClhPc {
    Idle,
    Waiting(int),
    Critical(int),
}

impl ClhPc {
    /// The node held, if any.
    pub open spec fn node(self) -> Option<int> {
        match self {
            ClhPc::Idle => Option::None,
            ClhPc::Waiting(m) => Option::Some(m),
            ClhPc::Critical(m) => Option::Some(m),
        }
    }
}

/// A snapshot of the protocol: how many nodes have been swapped into the
/// tail (node zero is the pre-released seed), which nodes have been
/// released, and every participant's program counter.
pub struct ClhState {
    pub next: int,
    pub released: Seq<bool>,
    pub pcs: Seq<ClhPc>,
}

/// One atomic step of participant `i`: the tail swap that appends its
/// node, the exit of the wait on its predecessor, and the release.
pub enum ClhStep {
    Enqueue,
    Enter,
    Exit,
}

/// The transition relation: `post` follows from `pre` by participant `i`
/// taking `step`.
pub open spec fn clh_step(pre: ClhState, i: int, step: ClhStep, post: ClhState) -> bool {
    &&& 0 <= i < pre.pcs.len()
    &&& pre.released.len() == pre.next
    &&& match step {
        ClhStep::Enqueue => {
            &&& pre.pcs[i] is Idle
            &&& post == (ClhState {
                next: pre.next + 1,
                released: pre.released.push(false),
                pcs: pre.pcs.update(i, ClhPc::Waiting(pre.next)),
            })
        },
        ClhStep::Enter => {
            &&& pre.pcs[i] matches ClhPc::Waiting(m) && pre.released[m - 1] && post == (ClhState {
                pcs: pre.pcs.update(i, ClhPc::Critical(m)),
                ..pre
            })
        },
        ClhStep::Exit => {
            &&& pre.pcs[i] matches ClhPc::Critical(m) && post == (ClhState {
                released: pre.released.update(m, true),
                pcs: pre.pcs.update(i, ClhPc::Idle),
                ..pre
            })
        },
    }
}

/// The queue holds only the pre-released seed and nobody is in line.
pub open spec fn clh_init(s: ClhState) -> bool {
    &&& s.next == 1
    &&& s.released == seq![true]
    &&& forall|i: int| 0 <= i < s.pcs.len() ==> (#[trigger] s.pcs[i]) is Idle
}

/// The inductive invariant: the released nodes form a prefix of the
/// queue — whenever a later node is released, so is every earlier one —
/// held nodes are pairwise distinct, unreleased and within the queue, and
/// a critical participant's predecessor has been released.
pub open spec fn clh_inv(s: ClhState) -> bool {
    &&& s.released.len() == s.next
    &&& 1 <= s.next
    &&& forall|k1: int, k2: int|
        0 <= k1 <= k2 < s.next && #[trigger] s.released[k2] ==> #[trigger] s.released[k1]
    &&& forall|i: int|
        0 <= i < s.pcs.len() && (#[trigger] s.pcs[i]).node() is Some ==> 1 <= s.pcs[i].node().unwrap()
            < s.next && !s.released[s.pcs[i].node().unwrap()]
    &&& forall|i: int|
        0 <= i < s.pcs.len() && (#[trigger] s.pcs[i]) is Critical ==> s.released[s.pcs[
            i
        ].node().unwrap() - 1]
    &&& forall|i: int, j: int|
        0 <= i < s.pcs.len() && 0 <= j < s.pcs.len() && i != j && (
        #[trigger] s.pcs[i]).node() is Some && (#[trigger] s.pcs[j]).node() is Some ==> s.pcs[
            i
        ].node().unwrap() != s.pcs[j].node().unwrap()
}

/// The initial state satisfies the invariant.
pub proof fn lemma_clh_init(s: ClhState)
    requires
        clh_init(s),
    ensures
        clh_inv(s),
{
}

/// Every step of any participant preserves the invariant.
pub proof fn lemma_clh_step_preserves_inv(pre: ClhState, i: int, step: ClhStep, post: ClhState)
    requires
        clh_inv(pre),
        clh_step(pre, i, step, post),
    ensures
        clh_inv(post),
{
    match step {
        ClhStep::Enqueue => {},
        ClhStep::Enter => {},
        ClhStep::Exit => {
            let m = pre.pcs[i]->Critical_0;
            assert(pre.released[m - 1]);
            assert forall|k1: int, k2: int|
                0 <= k1 <= k2 < post.next && #[trigger] post.released[k2] implies #[trigger] post.released[k1] by {
                if k1 != m {
                    if k2 == m {
                        assert(pre.released[m - 1]);
                        assert(k1 <= m - 1);
                    } else {
                        assert(pre.released[k2]);
                    }
                }
            }
        },
    }
}

/// Mutual exclusion: under the invariant, no two participants are in the
/// critical section at once.
pub proof fn lemma_clh_model_mutual_exclusion(s: ClhState, i: int, j: int)
    requires
        clh_inv(s),
        0 <= i < s.pcs.len(),
        0 <= j < s.pcs.len(),
        i != j,
    ensures
        !(s.pcs[i] is Critical && s.pcs[j] is Critical),
{
    if s.pcs[i] is Critical && s.pcs[j] is Critical {
        let mi = s.pcs[i].node().unwrap();
        let mj = s.pcs[j].node().unwrap();
        assert(s.released[mi - 1] && !s.released[mi]);
        assert(s.released[mj - 1] && !s.released[mj]);
        if mi < mj {
            assert(mi <= mj - 1 && s.released[mj - 1]);
        } else {
            assert(mj <= mi - 1 && s.released[mi - 1]);
        }
    }
}

/// First come, first served: a participant enters only on the node right
/// behind the released prefix, so admission follows the order in which
/// nodes were swapped into the tail.
pub proof fn lemma_clh_admission_in_order(s: ClhState, i: int, m: int)
    requires
        clh_inv(s),
        0 <= i < s.pcs.len(),
        s.pcs[i] == ClhPc::Waiting(m),
        s.released[m - 1],
    ensures
        forall|j: int|
            0 <= j < s.pcs.len() && (#[trigger] s.pcs[j]).node() is Some ==> m <= s.pcs[
                j
            ].node().unwrap(),
{
    assert forall|j: int|
        0 <= j < s.pcs.len() && (#[trigger] s.pcs[j]).node() is Some implies m <= s.pcs[
        j
    ].node().unwrap() by {
        let mj = s.pcs[j].node().unwrap();
        assert(!s.released[mj]);
        if mj < m {
            assert(mj <= m - 1 && s.released[m - 1]);
        }
    }
}

/// A run of the protocol: `trace` lists the states passed through and
/// `moves` the steps between them, each taken by some participant.
pub open spec fn clh_run(trace: Seq<ClhState>, moves: Seq<(int, ClhStep)>) -> bool {
    &&& trace.len() == moves.len() + 1
    &&& forall|k: int|
        0 <= k < moves.len() ==> #[trigger] clh_step(trace[k], moves[k].0, moves[k].1, trace[k + 1])
}

/// Every state of a run that starts in an initial state satisfies the
/// invariant, whatever the interleaving.
pub proof fn lemma_clh_run_inv(trace: Seq<ClhState>, moves: Seq<(int, ClhStep)>, k: int)
    requires
        clh_init(trace[0]),
        clh_run(trace, moves),
        0 <= k < trace.len(),
    ensures
        clh_inv(trace[k]),
    decreases k,
{
    if k == 0 {
        lemma_clh_init(trace[0]);
    } else {
        lemma_clh_run_inv(trace, moves, k - 1);
        let j = k - 1;
        assert(clh_step(trace[j], moves[j].0, moves[j].1, trace[j + 1]));
        lemma_clh_step_preserves_inv(trace[j], moves[j].0, moves[j].1, trace[j + 1]);
    }
}

} // verus!
