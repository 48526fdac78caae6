//! Peterson's two-participant lock.
//!
//! Each participant owns a flag; a shared victim marker breaks the tie.
//! To acquire, a participant raises its flag, writes itself as victim and
//! waits until the other's flag is down or the victim marker has moved on.
//! To release, it lowers its flag.  Run on real threads, the victim
//! write is an acquire-release swap, which orders the two doorway writes
//! against the other participant's reads.
//!
//! Besides the executable lock, this module carries the protocol as a
//! spec-level transition system over both participants' program counters
//! and proves the two classic theorems over it: an inductive invariant
//! that excludes both participants from the critical section at once, and
//! deadlock freedom of the waiting loop.

use vstd::prelude::*;
use crate::guard::FlagGuard;
use crate::lock::{BorrowError, BoundedLock, Lock, LockRef};

verus! {

/// Two flags, the victim marker and the borrow ledger.
pub struct PetersonLock {
    flag0: bool,
    flag1: bool,
    victim: bool,
    refs_left: usize,
}

/// A participant's handle: its identity is one of the two slots.
#[derive(Debug)]
pub struct PetersonRef {
    id: bool,
}

impl PetersonRef {
    /// The slot this participant occupies.
    pub closed spec fn id(&self) -> bool {
        self.id
    }
}

impl PetersonLock {
    /// The flag of participant `i`.
    pub closed spec fn flag(&self, i: bool) -> bool {
        if i {
            self.flag1
        } else {
            self.flag0
        }
    }

    /// The victim marker: the participant that yields on a tie.
    pub closed spec fn victim(&self) -> bool {
        self.victim
    }

    /// How many references are still available.
    pub closed spec fn refs(&self) -> int {
        self.refs_left as int
    }

    /// Hand a reference back; the ledger never grows past the capacity.
    ///
    /// Identity is positional and derives from the counter alone: the
    /// next borrow is issued the position just below the remaining
    /// count.  Outstanding identities therefore stay pairwise distinct
    /// only while references are handed back newest-first; handing an
    /// older reference back first lets a later borrow repeat a
    /// still-outstanding identity, exactly as the counter-based
    /// registration does on real threads.
    pub fn unborrow(&mut self, r: PetersonRef)
        ensures
            final(self).refs() == if old(self).refs() < 2 {
                old(self).refs() + 1
            } else {
                old(self).refs()
            },
            final(self).flag(false) == old(self).flag(false),
            final(self).flag(true) == old(self).flag(true),
            final(self).victim() == old(self).victim(),
    {
        let _ = r;
        if self.refs_left < 2 {
            self.refs_left = self.refs_left + 1;
        }
    }

    /// Release the held exclusion: lower the holder's flag.
    pub fn release(&mut self, guard: FlagGuard)
        ensures
            !final(self).flag(guard.slot() == 1),
            final(self).flag(!(guard.slot() == 1)) == old(self).flag(!(guard.slot() == 1)),
            final(self).victim() == old(self).victim(),
            final(self).refs() == old(self).refs(),
    {
        if guard.into_slot() == 1 {
            self.flag1 = false;
        } else {
            self.flag0 = false;
        }
    }
}

impl Lock for PetersonLock {
    type Ref = PetersonRef;

    open spec fn borrowable(&self) -> bool {
        self.refs() > 0
    }

    open spec fn borrowed(pre: &Self, post: &Self, r: &PetersonRef) -> bool {
        &&& post.refs() == pre.refs() - 1
        &&& r.id() == (pre.refs() == 1)
        &&& post.flag(false) == pre.flag(false)
        &&& post.flag(true) == pre.flag(true)
        &&& post.victim() == pre.victim()
    }

    fn borrow(&mut self) -> (r: Result<PetersonRef, BorrowError>) {
        if self.refs_left > 0 {
            self.refs_left = self.refs_left - 1;
            Ok(PetersonRef { id: self.refs_left == 0 })
        } else {
            Err(BorrowError::ThreadCapacityExceeded)
        }
    }
}

impl BoundedLock for PetersonLock {
    open spec fn capacity_spec(&self) -> int {
        2
    }

    open spec fn refs_left_spec(&self) -> int {
        self.refs()
    }

    open spec fn supported_capacity(max_threads: usize) -> bool {
        max_threads <= 2
    }

    /// The algorithm serves exactly two participants; asking for more is a
    /// construction-time programming error.
    fn with_capacity(max_threads: usize) -> (r: Self)
        ensures
            !r.flag(false),
            !r.flag(true),
            !r.victim(),
    {
        let _ = max_threads;
        PetersonLock { flag0: false, flag1: false, victim: false, refs_left: 2 }
    }

    fn capacity(&self) -> (r: usize) {
        2
    }

    fn refs_left(&self) -> (r: usize) {
        self.refs_left
    }

    proof fn borrowable_iff_refs_left(&self) {
    }
}

/// The entry test: participant `i` may enter while the other's flag is
/// down or the victim marker no longer names `i`.
pub open spec fn peterson_may_enter(other_flag: bool, victim: bool, i: bool) -> bool {
    !other_flag || victim != i
}

impl LockRef<PetersonLock> for PetersonRef {
    type Guard = FlagGuard;

    open spec fn can_acquire(&self, lock: &PetersonLock) -> bool {
        !lock.flag(!self.id())
    }

    open spec fn acquired(&self, pre: &PetersonLock, post: &PetersonLock, g: &FlagGuard) -> bool {
        &&& post.flag(self.id())
        &&& post.victim() == self.id()
        &&& post.flag(!self.id()) == pre.flag(!self.id())
        &&& post.refs() == pre.refs()
        &&& g.slot() == if self.id() {
            1int
        } else {
            0int
        }
        &&& peterson_may_enter(post.flag(!self.id()), post.victim(), self.id())
    }

    /// The doorway: raise the own flag, then take the victim slot.  The
    /// waiting loop of a concurrent run exits as soon as
    /// [`peterson_may_enter`] holds; the precondition puts the lock in
    /// such a state, so entry is immediate.
    fn acquire(&self, lock: &mut PetersonLock) -> (g: FlagGuard) {
        if self.id {
            lock.flag1 = true;
        } else {
            lock.flag0 = true;
        }
        lock.victim = self.id;
        FlagGuard::new(if self.id {
            1
        } else {
            0
        })
    }
}

/// In the sequential model an acquisition raises the holder's flag, which
/// is exactly what the other participant's entry test waits on.
pub proof fn lemma_peterson_exclusion(
    r1: &PetersonRef,
    pre: &PetersonLock,
    post: &PetersonLock,
    g: &FlagGuard,
    r2: &PetersonRef,
)
    requires
        r1.acquired(pre, post, g),
        r2.id() != r1.id(),
    ensures
        !r2.can_acquire(post),
{
}

/// Where a participant stands in the acquire protocol: outside, past
/// raising its flag, past taking the victim slot (and thus waiting on the
/// entry test), or inside the critical section.
pub enum PetersonPc {
    Idle,
    FlagRaised,
    Waiting,
    Critical,
}

/// A snapshot of the protocol: both program counters and the shared
/// memory the algorithm reads and writes.
pub struct PetersonState {
    pub pc0: PetersonPc,
    pub pc1: PetersonPc,
    pub flag0: bool,
    pub flag1: bool,
    pub victim: bool,
}

impl PetersonState {
    /// The program counter of participant `i`.
    pub open spec fn pc(self, i: bool) -> PetersonPc {
        if i {
            self.pc1
        } else {
            self.pc0
        }
    }

    /// The flag of participant `i`.
    pub open spec fn flag(self, i: bool) -> bool {
        if i {
            self.flag1
        } else {
            self.flag0
        }
    }

    /// Both participants idle, no flag raised.
    pub open spec fn init(self) -> bool {
        &&& self.pc0 is Idle
        &&& self.pc1 is Idle
        &&& !self.flag0
        &&& !self.flag1
    }
}

/// One atomic step of participant `i`, as the memory model sees it: the
/// two doorway writes, the successful exit of the waiting loop, and the
/// release.
pub enum PetersonStep {
    RaiseFlag,
    TakeVictim,
    Enter,
    Exit,
}

/// Update `s` by participant `i` writing its flag to `v`.
pub open spec fn peterson_write_flag(s: PetersonState, i: bool, v: bool) -> PetersonState {
    if i {
        PetersonState { flag1: v, ..s }
    } else {
        PetersonState { flag0: v, ..s }
    }
}

/// Update `s` by moving participant `i` to program counter `pc`.
pub open spec fn peterson_set_pc(s: PetersonState, i: bool, pc: PetersonPc) -> PetersonState {
    if i {
        PetersonState { pc1: pc, ..s }
    } else {
        PetersonState { pc0: pc, ..s }
    }
}

/// The transition relation: `post` follows from `pre` by participant `i`
/// taking `step`.
pub open spec fn peterson_step(
    pre: PetersonState,
    i: bool,
    step: PetersonStep,
    post: PetersonState,
) -> bool {
    match step {
        PetersonStep::RaiseFlag => {
            &&& pre.pc(i) is Idle
            &&& post == peterson_set_pc(peterson_write_flag(pre, i, true), i, PetersonPc::FlagRaised)
        },
        PetersonStep::TakeVictim => {
            &&& pre.pc(i) is FlagRaised
            &&& post == peterson_set_pc(PetersonState { victim: i, ..pre }, i, PetersonPc::Waiting)
        },
        PetersonStep::Enter => {
            &&& pre.pc(i) is Waiting
            &&& peterson_may_enter(pre.flag(!i), pre.victim, i)
            &&& post == peterson_set_pc(pre, i, PetersonPc::Critical)
        },
        PetersonStep::Exit => {
            &&& pre.pc(i) is Critical
            &&& post == peterson_set_pc(peterson_write_flag(pre, i, false), i, PetersonPc::Idle)
        },
    }
}

/// The inductive invariant: a participant past its doorway has its flag
/// up, and a participant in the critical section facing a waiting or
/// critical peer is not the victim.
pub open spec fn peterson_inv(s: PetersonState) -> bool {
    &&& forall|i: bool| !((#[trigger] s.pc(i)) is Idle) ==> s.flag(i)
    &&& forall|i: bool|
        (#[trigger] s.pc(i)) is Critical && !(s.pc(!i) is Idle) && !(s.pc(!i) is FlagRaised)
            ==> s.victim == !i
}

/// The initial state satisfies the invariant.
pub proof fn lemma_peterson_init(s: PetersonState)
    requires
        s.init(),
    ensures
        peterson_inv(s),
{
}

/// Every step of either participant preserves the invariant.
pub proof fn lemma_peterson_step_preserves_inv(
    pre: PetersonState,
    i: bool,
    step: PetersonStep,
    post: PetersonState,
)
    requires
        peterson_inv(pre),
        peterson_step(pre, i, step, post),
    ensures
        peterson_inv(post),
{
    assert(post.pc(!i) == pre.pc(!i));
    assert(post.flag(!i) == pre.flag(!i));
}

/// A run of the protocol: `trace` lists the states passed through and
/// `moves` the steps between them, each taken by some participant.
pub open spec fn peterson_trace(trace: Seq<PetersonState>, moves: Seq<(bool, PetersonStep)>) -> bool {
    &&& trace.len() == moves.len() + 1
    &&& forall|k: int|
        0 <= k < moves.len() ==> #[trigger] peterson_step(trace[k], moves[k].0, moves[k].1, trace[k + 1])
}

/// Every state of a run that starts in an initial state satisfies the
/// invariant, whatever the interleaving.
pub proof fn lemma_peterson_trace_inv(trace: Seq<PetersonState>, moves: Seq<(bool, PetersonStep)>, k: int)
    requires
        trace[0].init(),
        peterson_trace(trace, moves),
        0 <= k < trace.len(),
    ensures
        peterson_inv(trace[k]),
    decreases k,
{
    if k == 0 {
        lemma_peterson_init(trace[0]);
    } else {
        lemma_peterson_trace_inv(trace, moves, k - 1);
        let j = k - 1;
        assert(peterson_step(trace[j], moves[j].0, moves[j].1, trace[j + 1]));
        lemma_peterson_step_preserves_inv(trace[j], moves[j].0, moves[j].1, trace[j + 1]);
    }
}

/// Mutual exclusion: under the invariant, the two participants are never
/// both in the critical section.
pub proof fn lemma_peterson_mutual_exclusion(s: PetersonState)
    requires
        peterson_inv(s),
    ensures
        !(s.pc0 is Critical && s.pc1 is Critical),
{
    if s.pc0 is Critical && s.pc1 is Critical {
        assert(s.pc(false) is Critical && s.pc(true) is Critical);
        assert(s.victim == true && s.victim == false);
    }
}

/// Deadlock freedom: when both participants are waiting, at least one of
/// them passes the entry test, so the protocol never sticks.
pub proof fn lemma_peterson_progress(s: PetersonState)
    requires
        s.pc0 is Waiting,
        s.pc1 is Waiting,
    ensures
        peterson_may_enter(s.flag(true), s.victim, false) || peterson_may_enter(
            s.flag(false),
            s.victim,
            true,
        ),
{
}

} // verus!
