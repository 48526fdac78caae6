//! The array lock: a FIFO ticket lock over a ring of slot flags.
//!
//! Acquiring draws a unique, monotonically growing ticket from a counter
//! and waits on the ticket's slot in a ring of flags; releasing clears the
//! holder's slot and raises the next one, admitting exactly the next
//! ticket in draw order.  Run on real threads, the ticket is drawn
//! with an acquire-release fetch-and-increment, which is what makes the
//! admission order the draw order.
//!
//! Besides the executable lock, this module carries the protocol as a
//! spec-level transition system and proves, along every interleaving,
//! that at most one ticket is served at a time and that tickets are
//! served in draw order.

use vstd::prelude::*;
use crate::guard::ArrayGuard;
use crate::lock::{BorrowError, BoundedLock, Lock, LockRef};

verus! {

/// The ring of slot flags, the ticket counter and the borrow ledger.
pub struct ArrayLock {
    flags: Vec<bool>,
    next_slot: usize,
    refs_left: usize,
}

/// A participant's handle; identity comes from the drawn ticket, not the
/// reference.
#[derive(Debug)]
pub struct ArrayRef {}

impl ArrayLock {
    /// The ring of slot flags.
    pub closed spec fn flags_view(&self) -> Seq<bool> {
        self.flags@
    }

    /// The next ticket to be drawn.
    pub closed spec fn next_slot_of(&self) -> int {
        self.next_slot as int
    }

    /// The declared capacity.
    pub open spec fn capacity_of(&self) -> int {
        self.flags_view().len() as int
    }

    /// How many references are still available.
    pub closed spec fn refs(&self) -> int {
        self.refs_left as int
    }

    /// The ring is non-empty and the ledger never exceeds the capacity.
    pub open spec fn wf(&self) -> bool {
        &&& 1 <= self.capacity_of()
        &&& self.refs() <= self.capacity_of()
    }

    /// Hand a reference back; the ledger never grows past the capacity.
    pub fn unborrow(&mut self, r: ArrayRef)
        requires
            old(self).wf(),
        ensures
            final(self).wf(),
            final(self).refs() == if old(self).refs() < old(self).capacity_of() {
                old(self).refs() + 1
            } else {
                old(self).refs()
            },
            final(self).flags_view() == old(self).flags_view(),
            final(self).next_slot_of() == old(self).next_slot_of(),
    {
        let _ = r;
        if self.refs_left < self.flags.len() {
            self.refs_left = self.refs_left + 1;
        }
    }

    /// Release the held exclusion: clear the holder's slot and raise the
    /// successor's, admitting exactly the next ticket.
    pub fn release(&mut self, guard: ArrayGuard)
        requires
            old(self).wf(),
            guard.slot() < usize::MAX,
        ensures
            final(self).wf(),
            final(self).flags_view() == old(self).flags_view().update(
                guard.slot() as int % old(self).capacity_of(),
                false,
            ).update((guard.slot() + 1) % old(self).capacity_of(), true),
            final(self).next_slot_of() == old(self).next_slot_of(),
            final(self).refs() == old(self).refs(),
    {
        let slot = guard.into_slot();
        let n = self.flags.len();
        let curr = slot % n;
        let next = (slot + 1) % n;
        self.flags[curr] = false;
        self.flags[next] = true;
    }
}

impl Lock for ArrayLock {
    type Ref = ArrayRef;

    open spec fn borrowable(&self) -> bool {
        self.refs() > 0
    }

    open spec fn borrowed(pre: &Self, post: &Self, r: &ArrayRef) -> bool {
        &&& post.refs() == pre.refs() - 1
        &&& post.flags_view() == pre.flags_view()
        &&& post.next_slot_of() == pre.next_slot_of()
    }

    fn borrow(&mut self) -> (r: Result<ArrayRef, BorrowError>) {
        if self.refs_left > 0 {
            self.refs_left = self.refs_left - 1;
            Ok(ArrayRef {  })
        } else {
            Err(BorrowError::ThreadCapacityExceeded)
        }
    }
}

impl BoundedLock for ArrayLock {
    open spec fn capacity_spec(&self) -> int {
        self.capacity_of()
    }

    open spec fn refs_left_spec(&self) -> int {
        self.refs()
    }

    open spec fn supported_capacity(max_threads: usize) -> bool {
        max_threads >= 1
    }

    fn with_capacity(max_threads: usize) -> (r: Self)
        ensures
            r.wf(),
            r.capacity_of() == max_threads,
            r.next_slot_of() == 0,
            r.flags_view()[0],
            forall|k: int| 1 <= k < max_threads ==> !(#[trigger] r.flags_view()[k]),
    {
        let mut flags: Vec<bool> = Vec::new();
        flags.push(true);
        let mut n: usize = 1;
        while n < max_threads
            invariant
                1 <= n <= max_threads || (max_threads == 0 && n == 1),
                flags@.len() == n,
                flags@[0],
                forall|k: int| 1 <= k < n ==> !(#[trigger] flags@[k]),
            decreases max_threads - n,
        {
            flags.push(false);
            n = n + 1;
        }
        ArrayLock { flags, next_slot: 0, refs_left: max_threads }
    }

    fn capacity(&self) -> (r: usize) {
        self.flags.len()
    }

    fn refs_left(&self) -> (r: usize) {
        self.refs_left
    }

    proof fn borrowable_iff_refs_left(&self) {
    }
}

impl LockRef<ArrayLock> for ArrayRef {
    type Guard = ArrayGuard;

    open spec fn can_acquire(&self, lock: &ArrayLock) -> bool {
        &&& lock.wf()
        &&& lock.next_slot_of() < usize::MAX
        &&& lock.flags_view()[lock.next_slot_of() % lock.capacity_of()]
    }

    open spec fn acquired(&self, pre: &ArrayLock, post: &ArrayLock, g: &ArrayGuard) -> bool {
        &&& post.wf()
        &&& g.slot() == pre.next_slot_of()
        &&& post.next_slot_of() == pre.next_slot_of() + 1
        &&& post.flags_view() == pre.flags_view()
        &&& post.refs() == pre.refs()
        &&& post.flags_view()[g.slot() as int % post.capacity_of()]
    }

    /// Draw the ticket and enter.  A concurrent run waits on the
    /// ticket's slot flag; the precondition grants that the flag is up, so
    /// entry is immediate.
    fn acquire(&self, lock: &mut ArrayLock) -> (g: ArrayGuard) {
        let slot = lock.next_slot;
        lock.next_slot = lock.next_slot + 1;
        ArrayGuard::new(slot)
    }
}

/// `p` is the only raised slot of the ring `s`.
pub open spec fn array_one_flag(s: Seq<bool>, p: int) -> bool {
    &&& 0 <= p < s.len()
    &&& forall|k: int| 0 <= k < s.len() ==> (#[trigger] s[k] <==> k == p)
}

/// Tickets are served in draw order: of two acquisitions one after the
/// other, the earlier one holds the strictly smaller ticket.
pub proof fn lemma_array_fifo(
    r1: &ArrayRef,
    pre: &ArrayLock,
    mid: &ArrayLock,
    g1: &ArrayGuard,
    r2: &ArrayRef,
    post: &ArrayLock,
    g2: &ArrayGuard,
)
    requires
        r1.acquired(pre, mid, g1),
        r2.acquired(mid, post, g2),
    ensures
        g1.slot() < g2.slot(),
{
}

/// Releasing passes the ring's single raised flag from the holder's slot
/// to the successor's: exactly one ticket is admitted per release.
pub proof fn lemma_array_release_passes_token(pre: Seq<bool>, post: Seq<bool>, slot: int)
    requires
        array_one_flag(pre, slot % pre.len() as int),
        pre.len() >= 1,
        post == pre.update(slot % pre.len() as int, false).update(
            (slot + 1) % pre.len() as int,
            true,
        ),
    ensures
        array_one_flag(post, (slot + 1) % pre.len() as int),
{
}

/// While a ticket is being served, the next ticket's slot is down: the
/// sequential model's mutual exclusion for rings of at least two slots.
pub proof fn lemma_array_exclusion(
    r1: &ArrayRef,
    pre: &ArrayLock,
    post: &ArrayLock,
    g: &ArrayGuard,
    r2: &ArrayRef,
)
    requires
        r1.acquired(pre, post, g),
        array_one_flag(pre.flags_view(), g.slot() as int % pre.capacity_of()),
        pre.capacity_of() >= 2,
    ensures
        !r2.can_acquire(post),
{
    let n = pre.capacity_of();
    let t = g.slot() as int;
    assert(post.next_slot_of() == t + 1);
    assert((t + 1) % n != t % n) by (nonlinear_arith)
        requires
            n >= 2,
            t >= 0,
    ;
    assert(!post.flags_view()[(t + 1) % n]);
}

/// Where a participant of the ticket protocol stands: outside, waiting
/// on a drawn ticket, or inside the critical section with that ticket.
pub enum ArrayPc {
    Idle,
    Waiting(int),
    Critical(int),
}

impl ArrayPc {
    /// The ticket held, if any.
    pub open spec fn ticket(self) -> Option<int> {
        match self {
            ArrayPc::Idle => Option::None,
            ArrayPc::Waiting(t) => Option::Some(t),
            ArrayPc::Critical(t) => Option::Some(t),
        }
    }
}

/// A snapshot of the protocol: the ring of slot flags, the ticket
/// counter, the ticket currently admitted (`serving`, the quantity the
/// releases advance), and every participant's program counter.
pub struct ArrayState {
    pub flags: Seq<bool>,
    pub next: int,
    pub serving: int,
    pub pcs: Seq<ArrayPc>,
}

/// One atomic step of participant `i`: drawing a ticket, entering on the
/// ticket's raised slot, or releasing.  Drawing is enabled only while
/// fewer tickets are outstanding than the ring has slots, which is what
/// the bounded borrow ledger enforces.
pub enum ArrayStep {
    Draw,
    Enter,
    Exit,
}

/// The transition relation: `post` follows from `pre` by participant `i`
/// taking `step`.
pub open spec fn array_step(pre: ArrayState, i: int, step: ArrayStep, post: ArrayState) -> bool {
    &&& 0 <= i < pre.pcs.len()
    &&& match step {
        ArrayStep::Draw => {
            &&& pre.pcs[i] is Idle
            &&& pre.next - pre.serving < pre.flags.len()
            &&& post == (ArrayState {
                next: pre.next + 1,
                pcs: pre.pcs.update(i, ArrayPc::Waiting(pre.next)),
                ..pre
            })
        },
        ArrayStep::Enter => {
            &&& pre.pcs[i] matches ArrayPc::Waiting(t) && pre.flags[t % pre.flags.len() as int]
                && post == (ArrayState { pcs: pre.pcs.update(i, ArrayPc::Critical(t)), ..pre })
        },
        ArrayStep::Exit => {
            &&& pre.pcs[i] matches ArrayPc::Critical(t) && post == (ArrayState {
                flags: pre.flags.update(t % pre.flags.len() as int, false).update(
                    (t + 1) % pre.flags.len() as int,
                    true,
                ),
                serving: pre.serving + 1,
                pcs: pre.pcs.update(i, ArrayPc::Idle),
                ..pre
            })
        },
    }
}

/// Nobody holds a ticket, the counters sit at zero and slot zero is the
/// one raised slot.
pub open spec fn array_init(s: ArrayState) -> bool {
    &&& s.flags.len() >= 1
    &&& s.next == 0
    &&& s.serving == 0
    &&& array_one_flag(s.flags, 0)
    &&& forall|i: int| 0 <= i < s.pcs.len() ==> (#[trigger] s.pcs[i]) is Idle
}

/// The inductive invariant: the raised slot is the serving ticket's,
/// outstanding tickets lie between `serving` and `next` and fit in the
/// ring, tickets are pairwise distinct, and a critical participant holds
/// exactly the serving ticket.
pub open spec fn array_inv(s: ArrayState) -> bool {
    &&& s.flags.len() >= 1
    &&& s.serving <= s.next <= s.serving + s.flags.len()
    &&& array_one_flag(s.flags, s.serving % s.flags.len() as int)
    &&& forall|i: int|
        0 <= i < s.pcs.len() && (#[trigger] s.pcs[i]).ticket() is Some ==> s.serving
            <= s.pcs[i].ticket().unwrap() < s.next
    &&& forall|i: int| 0 <= i < s.pcs.len() && (#[trigger] s.pcs[i]) is Critical
        ==> s.pcs[i].ticket().unwrap() == s.serving
    &&& forall|i: int, j: int|
        0 <= i < s.pcs.len() && 0 <= j < s.pcs.len() && i != j && (
        #[trigger] s.pcs[i]).ticket() is Some && (#[trigger] s.pcs[j]).ticket() is Some
            ==> s.pcs[i].ticket().unwrap() != s.pcs[j].ticket().unwrap()
}

/// The initial state satisfies the invariant.
pub proof fn lemma_array_init(s: ArrayState)
    requires
        array_init(s),
    ensures
        array_inv(s),
{
    let n = s.flags.len() as int;
    assert(0int % n == 0) by (nonlinear_arith)
        requires
            n >= 1,
    ;
}

/// A ticket congruent to the serving ticket modulo the ring size, and
/// within one ring length of it, is the serving ticket itself.
proof fn lemma_array_ticket_pinned(t: int, serving: int, n: int)
    requires
        n >= 1,
        serving <= t < serving + n,
        t % n == serving % n,
    ensures
        t == serving,
{
    assert(t == serving) by (nonlinear_arith)
        requires
            n >= 1,
            serving <= t < serving + n,
            t % n == serving % n,
    ;
}

/// Every step of any participant preserves the invariant.
pub proof fn lemma_array_step_preserves_inv(pre: ArrayState, i: int, step: ArrayStep, post: ArrayState)
    requires
        array_inv(pre),
        array_step(pre, i, step, post),
    ensures
        array_inv(post),
{
    let n = pre.flags.len() as int;
    match step {
        ArrayStep::Draw => {},
        ArrayStep::Enter => {
            let t = pre.pcs[i].ticket().unwrap();
            assert(0 <= t % n < n) by (nonlinear_arith)
                requires
                    n >= 1,
            ;
            assert(pre.flags[t % n]);
            assert(t % n == pre.serving % n);
            lemma_array_ticket_pinned(t, pre.serving, n);
        },
        ArrayStep::Exit => {
            let t = pre.pcs[i].ticket().unwrap();
            assert(t == pre.serving);
            lemma_array_release_passes_token(pre.flags, post.flags, t);
            assert(post.serving % n == (t + 1) % n) by (nonlinear_arith)
                requires
                    n >= 1,
                    post.serving == t + 1,
            ;
            assert forall|j: int|
                0 <= j < post.pcs.len() && (#[trigger] post.pcs[j]).ticket() is Some implies
                post.serving <= post.pcs[j].ticket().unwrap() < post.next by {
                if j != i {
                    assert(pre.pcs[j].ticket().unwrap() != t);
                }
            }
        },
    }
}

/// Mutual exclusion: under the invariant, no two participants are in the
/// critical section at once.
pub proof fn lemma_array_model_mutual_exclusion(s: ArrayState, i: int, j: int)
    requires
        array_inv(s),
        0 <= i < s.pcs.len(),
        0 <= j < s.pcs.len(),
        i != j,
    ensures
        !(s.pcs[i] is Critical && s.pcs[j] is Critical),
{
}

/// First come, first served: a participant can enter only with the
/// oldest outstanding ticket, so admission order is draw order.
pub proof fn lemma_array_admission_in_order(s: ArrayState, i: int, t: int)
    requires
        array_inv(s),
        0 <= i < s.pcs.len(),
        s.pcs[i] == ArrayPc::Waiting(t),
        s.flags[t % s.flags.len() as int],
    ensures
        t == s.serving,
        forall|j: int|
            0 <= j < s.pcs.len() && (#[trigger] s.pcs[j]).ticket() is Some ==> t
                <= s.pcs[j].ticket().unwrap(),
{
    let n = s.flags.len() as int;
    assert(0 <= t % n < n) by (nonlinear_arith)
        requires
            n >= 1,
    ;
    assert(t % n == s.serving % n);
    lemma_array_ticket_pinned(t, s.serving, n);
}

/// A run of the protocol: `trace` lists the states passed through and
/// `moves` the steps between them, each taken by some participant.
pub open spec fn array_run(trace: Seq<ArrayState>, moves: Seq<(int, ArrayStep)>) -> bool {
    &&& trace.len() == moves.len() + 1
    &&& forall|k: int|
        0 <= k < moves.len() ==> #[trigger] array_step(trace[k], moves[k].0, moves[k].1, trace[k + 1])
}

/// Every state of a run that starts in an initial state satisfies the
/// invariant, whatever the interleaving.
pub proof fn lemma_array_run_inv(trace: Seq<ArrayState>, moves: Seq<(int, ArrayStep)>, k: int)
    requires
        array_init(trace[0]),
        array_run(trace, moves),
        0 <= k < trace.len(),
    ensures
        array_inv(trace[k]),
    decreases k,
{
    if k == 0 {
        lemma_array_init(trace[0]);
    } else {
        lemma_array_run_inv(trace, moves, k - 1);
        let j = k - 1;
        assert(array_step(trace[j], moves[j].0, moves[j].1, trace[j + 1]));
        lemma_array_step_preserves_inv(trace[j], moves[j].0, moves[j].1, trace[j + 1]);
    }
}

} // verus!
