//! The bakery lock: Lamport's ticket algorithm.
//!
//! An acquiring participant raises its flag, draws a label one past the
//! largest it can see, and waits until no other flagged participant
//! precedes it, where precedence is the lexicographic order on (label,
//! identity) — equal labels are resolved in favour of the lower identity,
//! deterministically.  Releasing lowers the flag.  Run on real
//! threads, the flag and label writes and the corresponding reads are all
//! sequentially consistent: a pair of participants must never each
//! observe the other's label write but not its flag write, which weaker
//! release/acquire ordering would allow.
//!
//! Besides the executable lock, this module carries the protocol as a
//! spec-level transition system over any number of participants and
//! proves mutual exclusion and deadlock freedom inductively, along every
//! interleaving.

use vstd::prelude::*;
use crate::guard::FlagGuard;
use crate::lock::{BorrowError, BoundedLock, Lock, LockRef};

verus! {

/// Per-participant intent flags and labels, and the borrow ledger.
pub struct BakeryLock {
    flags: Vec<bool>,
    labels: Vec<u64>,
    refs_left: usize,
}

/// A participant's handle: its identity is a slot below the capacity.
#[derive(Debug)]
pub struct BakeryRef {
    id: usize,
}

impl BakeryRef {
    /// The slot this participant occupies.
    pub closed spec fn id(&self) -> int {
        self.id as int
    }
}

/// The largest label in `s`, or zero when `s` is empty.
pub open spec fn bakery_max_label(s: Seq<u64>) -> int
    decreases s.len(),
{
    if s.len() == 0 {
        0
    } else {
        let rest = bakery_max_label(s.drop_last());
        if s.last() > rest {
            s.last() as int
        } else {
            rest
        }
    }
}

/// The ticket order: `(l1, i1)` goes before `(l2, i2)` when its label is
/// strictly smaller, or on equal labels when its identity is smaller.
pub open spec fn bakery_precedes(l1: u64, i1: int, l2: u64, i2: int) -> bool {
    l1 < l2 || (l1 == l2 && i1 < i2)
}

impl BakeryLock {
    /// Each participant's intent flag.
    pub closed spec fn flags_view(&self) -> Seq<bool> {
        self.flags@
    }

    /// Each participant's label.
    pub closed spec fn labels_view(&self) -> Seq<u64> {
        self.labels@
    }

    /// The declared capacity.
    pub open spec fn capacity_of(&self) -> int {
        self.flags_view().len() as int
    }

    /// How many references are still available.
    pub closed spec fn refs(&self) -> int {
        self.refs_left as int
    }

    /// The two slot vectors match the capacity and the ledger never
    /// exceeds it.
    pub open spec fn wf(&self) -> bool {
        &&& self.labels_view().len() == self.flags_view().len()
        &&& self.refs() <= self.capacity_of()
    }

    /// Hand a reference back; the ledger never grows past the capacity.
    ///
    /// Identity is positional and derives from the counter alone: the
    /// next borrow is issued the position just below the remaining
    /// count.  Outstanding identities therefore stay pairwise distinct
    /// only while references are handed back newest-first; handing an
    /// older reference back first lets a later borrow repeat a
    /// still-outstanding identity, exactly as the counter-based
    /// registration does on real threads.
    pub fn unborrow(&mut self, r: BakeryRef)
        requires
            old(self).wf(),
        ensures
            final(self).wf(),
            final(self).refs() == if old(self).refs() < old(self).capacity_of() {
                old(self).refs() + 1
            } else {
                old(self).refs()
            },
            final(self).flags_view() == old(self).flags_view(),
            final(self).labels_view() == old(self).labels_view(),
    {
        let _ = r;
        if self.refs_left < self.flags.len() {
            self.refs_left = self.refs_left + 1;
        }
    }

    /// Release the held exclusion: lower the holder's flag.
    pub fn release(&mut self, guard: FlagGuard)
        requires
            old(self).wf(),
            guard.slot() < old(self).capacity_of(),
        ensures
            final(self).wf(),
            final(self).flags_view() == old(self).flags_view().update(guard.slot() as int, false),
            final(self).labels_view() == old(self).labels_view(),
            final(self).refs() == old(self).refs(),
    {
        let slot = guard.into_slot();
        self.flags[slot] = false;
    }
}

impl Lock for BakeryLock {
    type Ref = BakeryRef;

    open spec fn borrowable(&self) -> bool {
        self.refs() > 0
    }

    open spec fn borrowed(pre: &Self, post: &Self, r: &BakeryRef) -> bool {
        &&& post.refs() == pre.refs() - 1
        &&& r.id() == pre.refs() - 1
        &&& post.flags_view() == pre.flags_view()
        &&& post.labels_view() == pre.labels_view()
    }

    fn borrow(&mut self) -> (r: Result<BakeryRef, BorrowError>) {
        if self.refs_left > 0 {
            self.refs_left = self.refs_left - 1;
            Ok(BakeryRef { id: self.refs_left })
        } else {
            Err(BorrowError::ThreadCapacityExceeded)
        }
    }
}

impl BoundedLock for BakeryLock {
    open spec fn capacity_spec(&self) -> int {
        self.capacity_of()
    }

    open spec fn refs_left_spec(&self) -> int {
        self.refs()
    }

    open spec fn supported_capacity(max_threads: usize) -> bool {
        true
    }

    fn with_capacity(max_threads: usize) -> (r: Self)
        ensures
            r.wf(),
            r.capacity_of() == max_threads,
            forall|k: int| 0 <= k < max_threads ==> !r.flags_view()[k],
            forall|k: int| 0 <= k < max_threads ==> r.labels_view()[k] == 0,
    {
        let mut flags: Vec<bool> = Vec::new();
        let mut labels: Vec<u64> = Vec::new();
        let mut n: usize = 0;
        while n < max_threads
            invariant
                n <= max_threads,
                flags@.len() == n,
                labels@.len() == n,
                forall|k: int| 0 <= k < n ==> !flags@[k],
                forall|k: int| 0 <= k < n ==> labels@[k] == 0,
            decreases max_threads - n,
        {
            flags.push(false);
            labels.push(0);
            n = n + 1;
        }
        BakeryLock { flags, labels, refs_left: max_threads }
    }

    fn capacity(&self) -> (r: usize) {
        self.flags.len()
    }

    fn refs_left(&self) -> (r: usize) {
        self.refs_left
    }

    proof fn borrowable_iff_refs_left(&self) {
    }
}

/// The waiting test: participant `id` stays blocked while some other
/// flagged participant precedes it in ticket order.
pub open spec fn bakery_blocked(lock: &BakeryLock, id: int) -> bool {
    exists|k: int|
        0 <= k < lock.capacity_of() && k != id && #[trigger] lock.flags_view()[k]
            && bakery_precedes(lock.labels_view()[k], k, lock.labels_view()[id], id)
}

impl LockRef<BakeryLock> for BakeryRef {
    type Guard = FlagGuard;

    open spec fn can_acquire(&self, lock: &BakeryLock) -> bool {
        &&& lock.wf()
        &&& 0 <= self.id() < lock.capacity_of()
        &&& forall|k: int|
            0 <= k < lock.capacity_of() && k != self.id() ==> !(#[trigger] lock.flags_view()[k])
        &&& bakery_max_label(lock.labels_view()) < u64::MAX
    }

    open spec fn acquired(&self, pre: &BakeryLock, post: &BakeryLock, g: &FlagGuard) -> bool {
        &&& post.wf()
        &&& post.refs() == pre.refs()
        &&& post.capacity_of() == pre.capacity_of()
        &&& post.flags_view() == pre.flags_view().update(self.id(), true)
        &&& post.labels_view() == pre.labels_view().update(
            self.id(),
            (bakery_max_label(pre.labels_view()) + 1) as u64,
        )
        &&& g.slot() == self.id()
        &&& !bakery_blocked(post, self.id())
    }

    /// The doorway: raise the flag, draw one past the largest visible
    /// label, publish it.  The subsequent wait of a concurrent run
    /// exits as soon as [`bakery_blocked`] clears; the precondition grants
    /// that no other participant is flagged, so it clears at once.
    fn acquire(&self, lock: &mut BakeryLock) -> (g: FlagGuard) {
        let ghost pre = *lock;
        lock.flags[self.id] = true;
        let n = lock.labels.len();
        let mut max_label: u64 = 0;
        let mut j: usize = 0;
        while j < n
            invariant
                n == lock.labels_view().len(),
                j <= n,
                max_label == bakery_max_label(lock.labels_view().take(j as int)),
            decreases n - j,
        {
            let label = lock.labels[j];
            proof {
                assert(lock.labels_view().take(j + 1).drop_last() =~= lock.labels_view().take(
                    j as int,
                ));
                assert(lock.labels_view().take(j + 1).last() == lock.labels_view()[j as int]);
            }
            if label > max_label {
                max_label = label;
            }
            j = j + 1;
        }
        proof {
            assert(lock.labels_view().take(n as int) =~= lock.labels_view());
            assert(lock.labels_view() == pre.labels_view());
        }
        let my_label = max_label + 1;
        lock.labels[self.id] = my_label;
        FlagGuard::new(self.id)
    }
}

/// No label in `s` exceeds the largest label of `s`.
pub proof fn lemma_bakery_max_label_bounds(s: Seq<u64>)
    ensures
        forall|k: int| 0 <= k < s.len() ==> #[trigger] s[k] <= bakery_max_label(s),
    decreases s.len(),
{
    if s.len() > 0 {
        lemma_bakery_max_label_bounds(s.drop_last());
        assert forall|k: int| 0 <= k < s.len() implies #[trigger] s[k] <= bakery_max_label(
            s,
        ) by {
            if k < s.len() - 1 {
                assert(s.drop_last()[k] == s[k]);
            }
        }
    }
}

/// A drawn ticket is fresh: the label published by an acquisition is
/// strictly larger than every label that was visible when it was drawn,
/// so the new arrival yields to every contender already labelled.
pub proof fn lemma_bakery_label_fresh(
    r: &BakeryRef,
    pre: &BakeryLock,
    post: &BakeryLock,
    g: &FlagGuard,
    k: int,
)
    requires
        r.acquired(pre, post, g),
        0 <= r.id() < pre.capacity_of(),
        0 <= k < pre.capacity_of(),
        k != r.id(),
        pre.wf(),
        bakery_max_label(pre.labels_view()) < u64::MAX,
    ensures
        post.labels_view()[k] < post.labels_view()[r.id()],
        bakery_precedes(post.labels_view()[k], k, post.labels_view()[r.id()], r.id()),
{
    lemma_bakery_max_label_bounds(pre.labels_view());
    assert(post.labels_view()[k] == pre.labels_view()[k]);
}

/// Equal labels resolve deterministically in identity order: of two
/// distinct participants with the same label, exactly the one with the
/// lower identity precedes the other.
pub proof fn lemma_bakery_tie_break(l: u64, i: int, j: int)
    requires
        i != j,
    ensures
        bakery_precedes(l, i, l, j) <==> i < j,
        bakery_precedes(l, i, l, j) <==> !bakery_precedes(l, j, l, i),
{
}

/// The ticket order totally orders distinct contenders, so the entry test
/// admits at most one of them at a time: two distinct flagged
/// participants cannot both be unblocked.
pub proof fn lemma_bakery_entry_exclusive(lock: &BakeryLock, i: int, j: int)
    requires
        lock.wf(),
        0 <= i < lock.capacity_of(),
        0 <= j < lock.capacity_of(),
        i != j,
        lock.flags_view()[i],
        lock.flags_view()[j],
    ensures
        bakery_blocked(lock, i) || bakery_blocked(lock, j),
{
    let li = lock.labels_view()[i];
    let lj = lock.labels_view()[j];
    if bakery_precedes(lj, j, li, i) {
        assert(bakery_blocked(lock, i));
    } else {
        assert(bakery_precedes(li, i, lj, j));
        assert(bakery_blocked(lock, j));
    }
}

/// Where a participant of the bakery protocol stands: outside, holding a
/// drawn ticket (and thus waiting on the entry test), or inside the
/// critical section.
pub enum BakeryPc {
    Idle,
    Labeled,
    Critical,
}

/// A snapshot of the protocol over any number of participants: the
/// shared flags and labels, and every participant's program counter.
pub struct BakeryState {
    pub flags: Seq<bool>,
    pub labels: Seq<u64>,
    pub pcs: Seq<BakeryPc>,
}

impl BakeryState {
    /// The three slot sequences cover the same participants.
    pub open spec fn wf(self) -> bool {
        &&& self.labels.len() == self.flags.len()
        &&& self.pcs.len() == self.flags.len()
    }

    /// Everybody idle, no flag raised.
    pub open spec fn init(self) -> bool {
        &&& self.wf()
        &&& forall|i: int| 0 <= i < self.pcs.len() ==> (#[trigger] self.pcs[i]) is Idle
        &&& forall|i: int| 0 <= i < self.flags.len() ==> !(#[trigger] self.flags[i])
    }

    /// The waiting test over a snapshot: participant `i` stays blocked
    /// while some other flagged participant precedes it in ticket order.
    pub open spec fn blocked(self, i: int) -> bool {
        exists|k: int|
            0 <= k < self.flags.len() && k != i && #[trigger] self.flags[k] && bakery_precedes(
                self.labels[k],
                k,
                self.labels[i],
                i,
            )
    }
}

/// One atomic step of participant `i`: drawing and publishing the ticket
/// (the doorway, whose sequentially consistent writes act as one globally
/// ordered pair), the successful exit of the waiting loop, and the
/// release.
pub enum BakeryStep {
    Label,
    Enter,
    Exit,
}

/// The transition relation: `post` follows from `pre` by participant `i`
/// taking `step`.
pub open spec fn bakery_step(pre: BakeryState, i: int, step: BakeryStep, post: BakeryState) -> bool {
    &&& pre.wf()
    &&& 0 <= i < pre.flags.len()
    &&& match step {
        BakeryStep::Label => {
            &&& pre.pcs[i] is Idle
            &&& bakery_max_label(pre.labels) < u64::MAX
            &&& post == (BakeryState {
                flags: pre.flags.update(i, true),
                labels: pre.labels.update(i, (bakery_max_label(pre.labels) + 1) as u64),
                pcs: pre.pcs.update(i, BakeryPc::Labeled),
            })
        },
        BakeryStep::Enter => {
            &&& pre.pcs[i] is Labeled
            &&& !pre.blocked(i)
            &&& post == (BakeryState { pcs: pre.pcs.update(i, BakeryPc::Critical), ..pre })
        },
        BakeryStep::Exit => {
            &&& pre.pcs[i] is Critical
            &&& post == (BakeryState {
                flags: pre.flags.update(i, false),
                pcs: pre.pcs.update(i, BakeryPc::Idle),
                ..pre
            })
        },
    }
}

/// The inductive invariant: a participant is flagged exactly while it is
/// ticketed or inside, and a participant in the critical section precedes
/// every other flagged participant in ticket order.
pub open spec fn bakery_inv(s: BakeryState) -> bool {
    &&& s.wf()
    &&& forall|i: int| 0 <= i < s.pcs.len() ==> (!((#[trigger] s.pcs[i]) is Idle) <==> s.flags[i])
    &&& forall|i: int, j: int|
        0 <= i < s.pcs.len() && 0 <= j < s.pcs.len() && i != j && (#[trigger] s.pcs[i]) is Critical
            && #[trigger] s.flags[j] ==> bakery_precedes(s.labels[i], i, s.labels[j], j)
}

/// The initial state satisfies the invariant.
pub proof fn lemma_bakery_init(s: BakeryState)
    requires
        s.init(),
    ensures
        bakery_inv(s),
{
}

/// Every step of any participant preserves the invariant.
pub proof fn lemma_bakery_step_preserves_inv(
    pre: BakeryState,
    i: int,
    step: BakeryStep,
    post: BakeryState,
)
    requires
        bakery_inv(pre),
        bakery_step(pre, i, step, post),
    ensures
        bakery_inv(post),
{
    match step {
        BakeryStep::Label => {
            lemma_bakery_max_label_bounds(pre.labels);
            assert forall|a: int, b: int|
                0 <= a < post.pcs.len() && 0 <= b < post.pcs.len() && a != b && (
                #[trigger] post.pcs[a]) is Critical
                    && #[trigger] post.flags[b] implies bakery_precedes(
                post.labels[a],
                a,
                post.labels[b],
                b,
            ) by {
                if b == i {
                    assert(pre.labels[a] <= bakery_max_label(pre.labels));
                    assert(post.labels[b] == bakery_max_label(pre.labels) + 1);
                } else {
                    assert(bakery_precedes(pre.labels[a], a, pre.labels[b], b));
                }
            }
        },
        BakeryStep::Enter => {
            assert forall|a: int, b: int|
                0 <= a < post.pcs.len() && 0 <= b < post.pcs.len() && a != b && (
                #[trigger] post.pcs[a]) is Critical
                    && #[trigger] post.flags[b] implies bakery_precedes(
                post.labels[a],
                a,
                post.labels[b],
                b,
            ) by {
                if a == i {
                    assert(!pre.blocked(i));
                    assert(pre.flags[b]);
                    assert(!bakery_precedes(pre.labels[b], b, pre.labels[i], i));
                } else {
                    assert(bakery_precedes(pre.labels[a], a, pre.labels[b], b));
                }
            }
        },
        BakeryStep::Exit => {
            assert forall|a: int, b: int|
                0 <= a < post.pcs.len() && 0 <= b < post.pcs.len() && a != b && (
                #[trigger] post.pcs[a]) is Critical
                    && #[trigger] post.flags[b] implies bakery_precedes(
                post.labels[a],
                a,
                post.labels[b],
                b,
            ) by {
                assert(bakery_precedes(pre.labels[a], a, pre.labels[b], b));
            }
        },
    }
}

/// Deadlock freedom: while nobody is inside the critical section, some
/// ticketed participant passes the entry test, so the protocol never
/// sticks.  The witness is found by descending the ticket order, which
/// every blocking contender strictly lowers.
pub proof fn lemma_bakery_progress(s: BakeryState, i: int)
    requires
        bakery_inv(s),
        0 <= i < s.pcs.len(),
        s.pcs[i] is Labeled,
        forall|k: int| 0 <= k < s.pcs.len() ==> !((#[trigger] s.pcs[k]) is Critical),
    ensures
        exists|w: int|
            0 <= w < s.pcs.len() && (#[trigger] s.pcs[w]) is Labeled && !s.blocked(w),
    decreases s.labels[i], i,
{
    if s.blocked(i) {
        let k = choose|k: int|
            0 <= k < s.flags.len() && k != i && #[trigger] s.flags[k] && bakery_precedes(
                s.labels[k],
                k,
                s.labels[i],
                i,
            );
        assert(!(s.pcs[k] is Idle));
        assert(s.pcs[k] is Labeled);
        lemma_bakery_progress(s, k);
    } else {
        assert(0 <= i < s.pcs.len() && (s.pcs[i]) is Labeled && !s.blocked(i));
    }
}

/// A run of the protocol: `trace` lists the states passed through and
/// `moves` the steps between them, each taken by some participant.
pub open spec fn bakery_trace(trace: Seq<BakeryState>, moves: Seq<(int, BakeryStep)>) -> bool {
    &&& trace.len() == moves.len() + 1
    &&& forall|k: int|
        0 <= k < moves.len() ==> #[trigger] bakery_step(trace[k], moves[k].0, moves[k].1, trace[k + 1])
}

/// Every state of a run that starts in an initial state satisfies the
/// invariant, whatever the interleaving.
pub proof fn lemma_bakery_trace_inv(trace: Seq<BakeryState>, moves: Seq<(int, BakeryStep)>, k: int)
    requires
        trace[0].init(),
        bakery_trace(trace, moves),
        0 <= k < trace.len(),
    ensures
        bakery_inv(trace[k]),
    decreases k,
{
    if k == 0 {
        lemma_bakery_init(trace[0]);
    } else {
        lemma_bakery_trace_inv(trace, moves, k - 1);
        let j = k - 1;
        assert(bakery_step(trace[j], moves[j].0, moves[j].1, trace[j + 1]));
        lemma_bakery_step_preserves_inv(trace[j], moves[j].0, moves[j].1, trace[j + 1]);
    }
}

/// Mutual exclusion: under the invariant, no two participants are in the
/// critical section at once, for any number of participants.
pub proof fn lemma_bakery_mutual_exclusion(s: BakeryState, i: int, j: int)
    requires
        bakery_inv(s),
        0 <= i < s.pcs.len(),
        0 <= j < s.pcs.len(),
        i != j,
    ensures
        !(s.pcs[i] is Critical && s.pcs[j] is Critical),
{
    if s.pcs[i] is Critical && s.pcs[j] is Critical {
        assert(s.flags[i] && s.flags[j]);
        assert(bakery_precedes(s.labels[i], i, s.labels[j], j));
        assert(bakery_precedes(s.labels[j], j, s.labels[i], i));
    }
}

} // verus!
