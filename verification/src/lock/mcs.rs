//! The MCS queue lock: an explicit queue with per-node successor links.
//!
//! Every acquirer appends a node to the queue and swaps the tail to point
//! at it; if a predecessor existed, the acquirer installs a handshake into
//! the predecessor's successor cell and waits on it.  Releasing first
//! tries to swing the tail from the holder's own node back to nobody — it
//! was last in line — and otherwise wakes the successor that has linked in
//! behind it.  The nodes live in an arena owned by the lock, standing for
//! the per-acquirer allocations a concurrent run would make.
//!
//! Besides the executable lock, this module carries the protocol as a
//! spec-level transition system over any number of participants — tail
//! swap, successor installation, notified entry and the two release
//! paths — and proves its mutual exclusion inductively, along every
//! interleaving.

use vstd::prelude::*;
use crate::guard::McsGuard;
use crate::lock::{BorrowError, Lock, LockRef, UnboundedLock};

verus! {

/// One queue node: whether its owner has been notified, and which node
/// has linked in behind it.
pub struct McsNode {
    /// Whether this node's owner has been notified by its predecessor.
    pub notified: bool,
    /// Which node has linked in behind this one.
    pub succ: Option<usize>,
}

/// The node arena and the queue tail.
pub struct McsLock {
    nodes: Vec<McsNode>,
    tail: Option<usize>,
}

impl McsLock {
    /// How many nodes the queue has ever held.
    pub closed spec fn node_count(&self) -> int {
        self.nodes@.len() as int
    }

    /// The current tail: the node an arriving acquirer would queue
    /// behind.
    pub closed spec fn tail_of(&self) -> Option<usize> {
        self.tail
    }

    /// Whether node `n` has been notified by its predecessor.
    pub closed spec fn notified(&self, n: int) -> bool {
        self.nodes@[n].notified
    }

    /// Which node has linked in behind node `n`.
    pub closed spec fn succ_of(&self, n: int) -> Option<usize> {
        self.nodes@[n].succ
    }

    /// The tail, when present, names an arena node.
    pub open spec fn wf(&self) -> bool {
        match self.tail_of() {
            Option::Some(t) => t < self.node_count(),
            Option::None => true,
        }
    }

    /// Release the held exclusion.  If the tail still points at the
    /// holder's node, nobody queued up behind it: the queue swings back to
    /// empty, as the compare-and-swap does on real threads.
    /// Otherwise the successor has linked in — the precondition grants
    /// that its link is already installed, which is what a concurrent run
    /// briefly waits for — and it gets notified.
    pub fn release(&mut self, guard: McsGuard)
        requires
            old(self).wf(),
            guard.node() < old(self).node_count(),
            old(self).tail_of() == Option::Some(guard.node()) || old(self).succ_of(
                guard.node() as int,
            ) is Some,
            old(self).succ_of(guard.node() as int) matches Some(s) ==> s < old(self).node_count(),
        ensures
            final(self).wf(),
            final(self).node_count() == old(self).node_count(),
            old(self).tail_of() == Option::Some(guard.node()) ==> final(self).tail_of() is None
                && final(self).nodes_view() == old(self).nodes_view(),
            old(self).tail_of() != Option::Some(guard.node()) ==> ({
                let s = old(self).succ_of(guard.node() as int).unwrap() as int;
                &&& final(self).tail_of() == old(self).tail_of()
                &&& final(self).nodes_view() == old(self).nodes_view().update(
                    s,
                    McsNode { notified: true, succ: old(self).succ_of(s) },
                )
                &&& final(self).notified(s)
                &&& final(self).succ_of(s) == old(self).succ_of(s)
            }),
    {
        let node = guard.into_node();
        let is_tail = match self.tail {
            Some(t) => t == node,
            None => false,
        };
        if is_tail {
            self.tail = None;
        } else {
            let s = match self.nodes[node].succ {
                Some(s) => s,
                None => 0,
            };
            let succ = self.nodes[s].succ;
            self.nodes[s] = McsNode { notified: true, succ };
        }
    }

    /// The whole arena, for stating frame conditions.
    pub closed spec fn nodes_view(&self) -> Seq<McsNode> {
        self.nodes@
    }
}

impl Lock for McsLock {
    type Ref = ();

    open spec fn borrowable(&self) -> bool {
        true
    }

    open spec fn borrowed(pre: &Self, post: &Self, r: &()) -> bool {
        post == pre
    }

    fn borrow(&mut self) -> (r: Result<(), BorrowError>) {
        Ok(())
    }
}

impl UnboundedLock for McsLock {
    fn new() -> (r: Self)
        ensures
            r.wf(),
            r.tail_of() is None,
            r.node_count() == 0,
    {
        McsLock { nodes: Vec::new(), tail: None }
    }

    proof fn always_borrowable(&self) {
    }
}

impl LockRef<McsLock> for () {
    type Guard = McsGuard;

    open spec fn can_acquire(&self, lock: &McsLock) -> bool {
        &&& lock.wf()
        &&& lock.tail_of() is None
    }

    open spec fn acquired(&self, pre: &McsLock, post: &McsLock, g: &McsGuard) -> bool {
        &&& post.wf()
        &&& g.node() == pre.node_count()
        &&& post.node_count() == pre.node_count() + 1
        &&& post.tail_of() == Option::Some(g.node())
        &&& post.nodes_view() == pre.nodes_view().push(McsNode { notified: false, succ: None })
        &&& !post.notified(g.node() as int)
        &&& post.succ_of(g.node() as int) is None
    }

    /// Append the own node and swing the tail to it.  A predecessor, had
    /// one existed, would receive the handshake link and be waited on;
    /// the precondition grants an empty queue, so entry is immediate.
    fn acquire(&self, lock: &mut McsLock) -> (g: McsGuard) {
        let node = lock.nodes.len();
        lock.nodes.push(McsNode { notified: false, succ: None });
        lock.tail = Some(node);
        McsGuard::new(node)
    }
}

/// In the queue model an acquisition occupies the tail: no further
/// acquisition can begin until the holder releases.
pub proof fn lemma_mcs_mutual_exclusion(
    r1: &(),
    pre: &McsLock,
    post: &McsLock,
    g: &McsGuard,
    r2: &(),
)
    requires
        LockRef::<McsLock>::acquired(r1, pre, post, g),
    ensures
        !LockRef::<McsLock>::can_acquire(r2, post),
{
}

/// Queue nodes are taken in arrival order: of two acquisitions one after
/// the other, the earlier one occupies the earlier node.
pub proof fn lemma_mcs_fifo(
    r1: &(),
    pre: &McsLock,
    mid: &McsLock,
    g1: &McsGuard,
    r2: &(),
    post: &McsLock,
    g2: &McsGuard,
)
    requires
        LockRef::<McsLock>::acquired(r1, pre, mid, g1),
        LockRef::<McsLock>::acquired(r2, mid, post, g2),
    ensures
        g1.node() < g2.node(),
{
}

/// Where a participant of the queue protocol stands: outside; holding a
/// fresh node whose handshake must still be installed into the named
/// predecessor; waiting on the own node's notification; or inside the
/// critical section with the own node.
pub enum McsPc {
    Idle,
    Installing(int, int),
    Waiting(int),
    Critical(int),
}

impl McsPc {
    /// The node held, if any.
    pub open spec fn node(self) -> Option<int> {
        match self {
            McsPc::Idle => Option::None,
            McsPc::Installing(m, p) => Option::Some(m),
            McsPc::Waiting(m) => Option::Some(m),
            McsPc::Critical(m) => Option::Some(m),
        }
    }
}

/// A snapshot of the protocol: per-node notification flags and successor
/// links, the queue tail, and every participant's program counter.  The
/// node arena only grows; a node belongs to one acquisition.
pub struct McsState {
    pub notified: Seq<bool>,
    pub succ: Seq<Option<int>>,
    pub tail: Option<int>,
    pub pcs: Seq<McsPc>,
}

impl McsState {
    /// How many nodes the queue has ever held.
    pub open spec fn node_count(self) -> int {
        self.notified.len() as int
    }

    /// Participant `i` has been notified and may enter.
    pub open spec fn armed(self, i: int) -> bool {
        self.pcs[i] matches McsPc::Waiting(m) && self.notified[m]
    }

    /// No nodes yet, no tail, everybody idle.
    pub open spec fn init(self) -> bool {
        &&& self.notified.len() == 0
        &&& self.succ.len() == 0
        &&& self.tail is None
        &&& forall|i: int| 0 <= i < self.pcs.len() ==> (#[trigger] self.pcs[i]) is Idle
    }
}

/// One atomic step of participant `i`: the tail swap that appends its
/// node (entering outright when the queue was empty), the write that
/// installs its handshake into the predecessor's successor cell, the
/// exit of the wait on the own notification, and the two release paths —
/// the compare-and-swap that empties the queue when the own node is
/// still the tail, and the wake-up of the installed successor otherwise.
pub enum McsStep {
    SwapTail,
    Install,
    Enter,
    ExitTail,
    ExitNotify,
}

/// The transition relation: `post` follows from `pre` by participant `i`
/// taking `step`.
pub open spec fn mcs_step(pre: McsState, i: int, step: McsStep, post: McsState) -> bool {
    &&& 0 <= i < pre.pcs.len()
    &&& pre.succ.len() == pre.notified.len()
    &&& match step {
        McsStep::SwapTail => {
            &&& pre.pcs[i] is Idle
            &&& post == (McsState {
                notified: pre.notified.push(false),
                succ: pre.succ.push(Option::None),
                tail: Option::Some(pre.node_count()),
                pcs: pre.pcs.update(
                    i,
                    match pre.tail {
                        Option::None => McsPc::Critical(pre.node_count()),
                        Option::Some(p) => McsPc::Installing(pre.node_count(), p),
                    },
                ),
            })
        },
        McsStep::Install => {
            &&& pre.pcs[i] matches McsPc::Installing(m, p) && post == (McsState {
                succ: pre.succ.update(p, Option::Some(m)),
                pcs: pre.pcs.update(i, McsPc::Waiting(m)),
                ..pre
            })
        },
        McsStep::Enter => {
            &&& pre.pcs[i] matches McsPc::Waiting(m) && pre.notified[m] && post == (McsState {
                pcs: pre.pcs.update(i, McsPc::Critical(m)),
                ..pre
            })
        },
        McsStep::ExitTail => {
            &&& pre.pcs[i] matches McsPc::Critical(m) && pre.tail == Option::Some(m) && post == (
            McsState { tail: Option::None, pcs: pre.pcs.update(i, McsPc::Idle), ..pre })
        },
        McsStep::ExitNotify => {
            &&& pre.pcs[i] matches McsPc::Critical(m) && pre.tail != Option::Some(m) && pre.succ[m]
                is Some && post == (McsState {
                notified: pre.notified.update(pre.succ[m].unwrap(), true),
                pcs: pre.pcs.update(i, McsPc::Idle),
                ..pre
            })
        },
    }
}

/// The inductive invariant.  Indices are in range and held nodes are
/// pairwise distinct; the single entry right is traced through its
/// shapes: an empty tail admits nobody pending, at most one participant
/// is notified-and-waiting, the critical section and a pending
/// notification never coexist, and a node whose handshake is not yet
/// installed is neither notified nor pointed at.
pub open spec fn mcs_inv(s: McsState) -> bool {
    &&& s.succ.len() == s.notified.len()
    &&& (s.tail matches Some(t) ==> 0 <= t < s.node_count())
    &&& forall|i: int|
        0 <= i < s.pcs.len() && (#[trigger] s.pcs[i]).node() is Some ==> 0 <= s.pcs[
            i
        ].node().unwrap() < s.node_count()
    &&& forall|i: int|
        0 <= i < s.pcs.len() && (#[trigger] s.pcs[i]) is Installing ==> 0 <= s.pcs[
            i
        ]->Installing_1 < s.node_count()
    &&& forall|q: int|
        0 <= q < s.node_count() && (#[trigger] s.succ[q]) is Some ==> 0 <= s.succ[q].unwrap()
            < s.node_count()
    &&& forall|i: int, j: int|
        0 <= i < s.pcs.len() && 0 <= j < s.pcs.len() && i != j && (
        #[trigger] s.pcs[i]).node() is Some && (#[trigger] s.pcs[j]).node() is Some ==> s.pcs[
            i
        ].node().unwrap() != s.pcs[j].node().unwrap()
    &&& forall|i: int, j: int|
        0 <= i < s.pcs.len() && 0 <= j < s.pcs.len() && i != j ==> !((#[trigger] s.pcs[i])
            is Critical && (#[trigger] s.pcs[j]) is Critical)
    &&& forall|i: int, j: int|
        0 <= i < s.pcs.len() && 0 <= j < s.pcs.len() && i != j ==> !(#[trigger] s.armed(i)
            && #[trigger] s.armed(j))
    &&& forall|i: int, j: int|
        0 <= i < s.pcs.len() && 0 <= j < s.pcs.len() && i != j ==> !((#[trigger] s.pcs[i])
            is Critical && #[trigger] s.armed(j))
    &&& s.tail is None ==> forall|i: int|
        0 <= i < s.pcs.len() ==> !((#[trigger] s.pcs[i]) is Critical) && !s.armed(i)
    &&& forall|i: int|
        0 <= i < s.pcs.len() && (#[trigger] s.pcs[i]) is Installing ==> !s.notified[s.pcs[
            i
        ]->Installing_0]
    &&& forall|i: int, q: int|
        0 <= i < s.pcs.len() && 0 <= q < s.node_count() && (#[trigger] s.pcs[i]) is Installing
            ==> (#[trigger] s.succ[q]) != Option::Some(s.pcs[i]->Installing_0)
}

/// The initial state satisfies the invariant.
pub proof fn lemma_mcs_init(s: McsState)
    requires
        s.init(),
    ensures
        mcs_inv(s),
{
}

/// Every step of any participant preserves the invariant.
pub proof fn lemma_mcs_step_preserves_inv(pre: McsState, i: int, step: McsStep, post: McsState)
    requires
        mcs_inv(pre),
        mcs_step(pre, i, step, post),
    ensures
        mcs_inv(post),
{
    match step {
        McsStep::SwapTail => {
            assert forall|j: int| 0 <= j < post.pcs.len() && j != i implies post.armed(j)
                == pre.armed(j) by {}
        },
        McsStep::Install => {
            let m = pre.pcs[i]->Installing_0;
            assert(!pre.notified[m]);
            assert forall|j: int| 0 <= j < post.pcs.len() implies !(#[trigger] post.armed(j)) || (j
                != i && pre.armed(j)) by {
                if j == i {
                    assert(!post.notified[m]);
                }
            }
        },
        McsStep::Enter => {
            assert(pre.armed(i));
            assert forall|j: int| 0 <= j < post.pcs.len() && j != i implies post.armed(j)
                == pre.armed(j) by {}
        },
        McsStep::ExitTail => {
            assert forall|j: int| 0 <= j < post.pcs.len() implies post.armed(j) == pre.armed(
                j,
            ) by {}
        },
        McsStep::ExitNotify => {
            let m = pre.pcs[i]->Critical_0;
            let woken = pre.succ[m].unwrap();
            assert forall|j: int, k: int|
                0 <= j < post.pcs.len() && 0 <= k < post.pcs.len() && j != k implies !(
            #[trigger] post.armed(j) && #[trigger] post.armed(k)) by {
                if post.armed(j) && post.armed(k) {
                    if !pre.armed(j) {
                        assert(pre.pcs[i] is Critical);
                    }
                    if !pre.armed(k) {
                        assert(pre.pcs[i] is Critical);
                    }
                    assert(pre.armed(j) || pre.armed(k));
                }
            }
        },
    }
}

/// Mutual exclusion: under the invariant, no two participants are in the
/// critical section at once, for any number of participants.
pub proof fn lemma_mcs_model_mutual_exclusion(s: McsState, i: int, j: int)
    requires
        mcs_inv(s),
        0 <= i < s.pcs.len(),
        0 <= j < s.pcs.len(),
        i != j,
    ensures
        !(s.pcs[i] is Critical && s.pcs[j] is Critical),
{
}

/// One wake-up per release: at most one participant is notified and
/// ready to enter at any instant, and never while the critical section
/// is occupied — each release admits exactly the successor it woke.
pub proof fn lemma_mcs_single_admission(s: McsState, i: int, j: int)
    requires
        mcs_inv(s),
        0 <= i < s.pcs.len(),
        0 <= j < s.pcs.len(),
        i != j,
        s.armed(i),
    ensures
        !s.armed(j),
        !(s.pcs[j] is Critical),
{
}

/// A run of the protocol: `trace` lists the states passed through and
/// `moves` the steps between them, each taken by some participant.
pub open spec fn mcs_run(trace: Seq<McsState>, moves: Seq<(int, McsStep)>) -> bool {
    &&& trace.len() == moves.len() + 1
    &&& forall|k: int|
        0 <= k < moves.len() ==> #[trigger] mcs_step(trace[k], moves[k].0, moves[k].1, trace[k + 1])
}

/// Every state of a run that starts in an initial state satisfies the
/// invariant, whatever the interleaving.
pub proof fn lemma_mcs_run_inv(trace: Seq<McsState>, moves: Seq<(int, McsStep)>, k: int)
    requires
        trace[0].init(),
        mcs_run(trace, moves),
        0 <= k < trace.len(),
    ensures
        mcs_inv(trace[k]),
    decreases k,
{
    if k == 0 {
        lemma_mcs_init(trace[0]);
    } else {
        lemma_mcs_run_inv(trace, moves, k - 1);
        let j = k - 1;
        assert(mcs_step(trace[j], moves[j].0, moves[j].1, trace[j + 1]));
        lemma_mcs_step_preserves_inv(trace[j], moves[j].0, moves[j].1, trace[j + 1]);
    }
}

} // verus!
