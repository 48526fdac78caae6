//! The filter lock: Peterson's algorithm generalized to N participants.
//!
//! Every participant climbs N-1 levels; at each level it records its
//! level, marks itself the level's victim and waits until no other
//! participant is at that level or above while it is still the victim.
//! Each level filters out at least one contender, so at most one
//! participant emerges from the top level.  Releasing drops the holder's
//! level back to zero.
//!
//! Besides the executable lock, this module carries the protocol as a
//! spec-level transition system and proves the classic counting argument
//! inductively, along every interleaving: each of the N-1 stages has
//! been cleared by one participant fewer than the one before it, so at
//! most one participant clears the last.

use vstd::prelude::*;
use vstd::set_lib::lemma_len_subset;
use crate::guard::LevelGuard;
use crate::lock::{BorrowError, BoundedLock, Lock, LockRef};

verus! {

/// Per-participant levels, per-level victims and the borrow ledger.
pub struct FilterLock {
    levels: Vec<usize>,
    victims: Vec<usize>,
    refs_left: usize,
}

/// A participant's handle: its identity is a slot below the capacity.
#[derive(Debug)]
pub struct FilterRef {
    id: usize,
}

impl FilterRef {
    /// The slot this participant occupies.
    pub closed spec fn id(&self) -> int {
        self.id as int
    }
}

impl FilterLock {
    /// The level each participant has climbed to.
    pub closed spec fn levels_view(&self) -> Seq<usize> {
        self.levels@
    }

    /// The victim recorded at each level.
    pub closed spec fn victims_view(&self) -> Seq<usize> {
        self.victims@
    }

    /// The declared capacity.
    pub open spec fn capacity_of(&self) -> int {
        self.levels_view().len() as int
    }

    /// How many references are still available.
    pub closed spec fn refs(&self) -> int {
        self.refs_left as int
    }

    /// The two slot vectors match the capacity and the ledger never
    /// exceeds it.
    pub open spec fn wf(&self) -> bool {
        &&& self.victims_view().len() == self.levels_view().len()
        &&& self.refs() <= self.capacity_of()
    }

    /// Hand a reference back; the ledger never grows past the capacity.
    ///
    /// Identity is positional and derives from the counter alone: the
    /// next borrow is issued the position just below the remaining
    /// count.  Outstanding identities therefore stay pairwise distinct
    /// only while references are handed back newest-first; handing an
    /// older reference back first lets a later borrow repeat a
    /// still-outstanding identity, exactly as the counter-based
    /// registration does on real threads.
    pub fn unborrow(&mut self, r: FilterRef)
        requires
            old(self).wf(),
        ensures
            final(self).wf(),
            final(self).refs() == if old(self).refs() < old(self).capacity_of() {
                old(self).refs() + 1
            } else {
                old(self).refs()
            },
            final(self).levels_view() == old(self).levels_view(),
            final(self).victims_view() == old(self).victims_view(),
    {
        let _ = r;
        if self.refs_left < self.levels.len() {
            self.refs_left = self.refs_left + 1;
        }
    }

    /// Release the held exclusion: reset the holder's level to zero.
    pub fn release(&mut self, guard: LevelGuard)
        requires
            old(self).wf(),
            guard.slot() < old(self).capacity_of(),
        ensures
            final(self).wf(),
            final(self).levels_view() == old(self).levels_view().update(guard.slot() as int, 0usize),
            final(self).victims_view() == old(self).victims_view(),
            final(self).refs() == old(self).refs(),
    {
        let slot = guard.into_slot();
        self.levels[slot] = 0;
    }
}

impl Lock for FilterLock {
    type Ref = FilterRef;

    open spec fn borrowable(&self) -> bool {
        self.refs() > 0
    }

    open spec fn borrowed(pre: &Self, post: &Self, r: &FilterRef) -> bool {
        &&& post.refs() == pre.refs() - 1
        &&& r.id() == pre.refs() - 1
        &&& post.levels_view() == pre.levels_view()
        &&& post.victims_view() == pre.victims_view()
    }

    fn borrow(&mut self) -> (r: Result<FilterRef, BorrowError>) {
        if self.refs_left > 0 {
            self.refs_left = self.refs_left - 1;
            Ok(FilterRef { id: self.refs_left })
        } else {
            Err(BorrowError::ThreadCapacityExceeded)
        }
    }
}

impl BoundedLock for FilterLock {
    open spec fn capacity_spec(&self) -> int {
        self.capacity_of()
    }

    open spec fn refs_left_spec(&self) -> int {
        self.refs()
    }

    open spec fn supported_capacity(max_threads: usize) -> bool {
        true
    }

    fn with_capacity(max_threads: usize) -> (r: Self)
        ensures
            r.wf(),
            r.capacity_of() == max_threads,
            forall|k: int| 0 <= k < max_threads ==> r.levels_view()[k] == 0,
            forall|k: int| 0 <= k < max_threads ==> r.victims_view()[k] == 0,
    {
        let mut levels: Vec<usize> = Vec::new();
        let mut victims: Vec<usize> = Vec::new();
        let mut n: usize = 0;
        while n < max_threads
            invariant
                n <= max_threads,
                levels@.len() == n,
                victims@.len() == n,
                forall|k: int| 0 <= k < n ==> levels@[k] == 0,
                forall|k: int| 0 <= k < n ==> victims@[k] == 0,
            decreases max_threads - n,
        {
            levels.push(0);
            victims.push(0);
            n = n + 1;
        }
        FilterLock { levels, victims, refs_left: max_threads }
    }

    fn capacity(&self) -> (r: usize) {
        self.levels.len()
    }

    fn refs_left(&self) -> (r: usize) {
        self.refs_left
    }

    proof fn borrowable_iff_refs_left(&self) {
    }
}

/// The waiting test at level `i`: participant `id` stays blocked while
/// some other participant is at level `i` or above and `id` is still the
/// level's victim.
pub open spec fn filter_blocked_at(lock: &FilterLock, id: int, i: int) -> bool {
    exists|k: int|
        0 <= k < lock.capacity_of() && k != id && #[trigger] lock.levels_view()[k] >= i
            && lock.victims_view()[i] == id
}

impl LockRef<FilterLock> for FilterRef {
    type Guard = LevelGuard;

    open spec fn can_acquire(&self, lock: &FilterLock) -> bool {
        &&& lock.wf()
        &&& 0 <= self.id() < lock.capacity_of()
        &&& forall|k: int| 0 <= k < lock.capacity_of() ==> #[trigger] lock.levels_view()[k] == 0
    }

    open spec fn acquired(&self, pre: &FilterLock, post: &FilterLock, g: &LevelGuard) -> bool {
        &&& post.wf()
        &&& post.refs() == pre.refs()
        &&& post.capacity_of() == pre.capacity_of()
        &&& post.levels_view()[self.id()] == post.capacity_of() - 1
        &&& forall|k: int|
            0 <= k < pre.capacity_of() && k != self.id() ==> #[trigger] post.levels_view()[k]
                == pre.levels_view()[k]
        &&& forall|j: int| 1 <= j < post.capacity_of() ==> #[trigger] post.victims_view()[j]
            == self.id()
        &&& g.slot() == self.id()
        &&& !filter_blocked_at(post, self.id(), post.capacity_of() - 1)
    }

    /// Climb the levels.  At each one a concurrent run waits until
    /// [`filter_blocked_at`] clears; with no other contender the test
    /// clears at once, which is what the precondition grants.
    fn acquire(&self, lock: &mut FilterLock) -> (g: LevelGuard) {
        let ghost pre = *lock;
        let capacity = lock.levels.len();
        let mut i: usize = 1;
        while i < capacity
            invariant
                lock.wf(),
                capacity == lock.capacity_of(),
                0 <= self.id() < capacity,
                1 <= i,
                i <= capacity || i == 1,
                lock.refs() == pre.refs(),
                lock.levels_view().len() == pre.levels_view().len(),
                lock.victims_view().len() == pre.victims_view().len(),
                forall|k: int|
                    0 <= k < capacity && k != self.id() ==> #[trigger] lock.levels_view()[k]
                        == pre.levels_view()[k],
                lock.levels_view()[self.id()] == if i == 1 {
                    pre.levels_view()[self.id()] as int
                } else {
                    i - 1
                },
                forall|k: int| 0 <= k < capacity ==> #[trigger] pre.levels_view()[k] == 0,
                forall|j: int| 1 <= j < i ==> #[trigger] lock.victims_view()[j] == self.id(),
                forall|j: int|
                    0 <= j < capacity && !(1 <= j < i) ==> #[trigger] lock.victims_view()[j]
                        == pre.victims_view()[j],
            decreases capacity - i,
        {
            self.climb_to(lock, i);
            i = i + 1;
        }
        LevelGuard::new(self.id)
    }
}

impl FilterRef {
    /// One level of the climb: record the level, take the victim slot.
    /// The subsequent wait of a concurrent run passes as soon as no
    /// other participant is at this level or above.
    fn climb_to(&self, lock: &mut FilterLock, i: usize)
        requires
            old(lock).wf(),
            0 <= self.id() < old(lock).capacity_of(),
            1 <= i < old(lock).capacity_of(),
        ensures
            final(lock).wf(),
            final(lock).refs() == old(lock).refs(),
            final(lock).levels_view() == old(lock).levels_view().update(self.id(), i),
            final(lock).victims_view() == old(lock).victims_view().update(i as int, self.id),
    {
        lock.levels[self.id] = i;
        lock.victims[i] = self.id;
    }
}

/// With at least two participants declared, a holder that has climbed to
/// the top level keeps every other participant from opening its own
/// climb: the sequential model's mutual exclusion.
pub proof fn lemma_filter_exclusion(
    r1: &FilterRef,
    pre: &FilterLock,
    post: &FilterLock,
    g: &LevelGuard,
    r2: &FilterRef,
)
    requires
        r1.acquired(pre, post, g),
        post.capacity_of() >= 2,
        0 <= r1.id() < post.capacity_of(),
        0 <= r2.id() < post.capacity_of(),
        r2.id() != r1.id(),
    ensures
        !r2.can_acquire(post),
{
    assert(post.levels_view()[r1.id()] != 0);
}

/// Where a participant of the filter protocol stands: outside, past a
/// stage's level write (its doorway), past that stage's victim write (and
/// thus waiting on its test), or past the whole stage.  A participant
/// past the top stage is in the critical section.
pub enum FilterPc {
    Idle,
    Doorway(int),
    Waiting(int),
    Passed(int),
}

impl FilterPc {
    /// The highest stage this participant has cleared.
    pub open spec fn cleared(self) -> int {
        match self {
            FilterPc::Idle => 0,
            FilterPc::Doorway(l) => l - 1,
            FilterPc::Waiting(l) => l - 1,
            FilterPc::Passed(l) => l,
        }
    }

    /// The level value this participant has published.
    pub open spec fn published(self) -> int {
        match self {
            FilterPc::Idle => 0,
            FilterPc::Doorway(l) => l,
            FilterPc::Waiting(l) => l,
            FilterPc::Passed(l) => l,
        }
    }

    /// The stage named by the counter lies within the protocol for `n`
    /// participants.
    pub open spec fn in_range(self, n: int) -> bool {
        match self {
            FilterPc::Idle => true,
            FilterPc::Doorway(l) => 1 <= l <= n - 1,
            FilterPc::Waiting(l) => 1 <= l <= n - 1,
            FilterPc::Passed(l) => 1 <= l <= n - 1,
        }
    }
}

/// A snapshot of the protocol over `n >= 2` participants: per-participant
/// levels, per-stage victims and every participant's program counter.
pub struct FilterState {
    pub levels: Seq<int>,
    pub victims: Seq<int>,
    pub pcs: Seq<FilterPc>,
}

impl FilterState {
    /// The number of participants.
    pub open spec fn n(self) -> int {
        self.pcs.len() as int
    }

    /// The slot sequences cover the participants and every counter names
    /// a real stage.
    pub open spec fn wf(self) -> bool {
        &&& self.levels.len() == self.pcs.len()
        &&& self.victims.len() == self.pcs.len()
        &&& self.n() >= 2
        &&& forall|i: int| 0 <= i < self.n() ==> (#[trigger] self.pcs[i]).in_range(self.n())
    }

    /// The published level array agrees with every participant's
    /// progress.
    pub open spec fn consistent(self) -> bool {
        forall|i: int| 0 <= i < self.n() ==> self.levels[i] == (#[trigger] self.pcs[i]).published()
    }

    /// The participants that have cleared stage `l`.
    pub open spec fn above(self, l: int) -> Set<int> {
        Set::new(|i: int| 0 <= i < self.n() && self.pcs[i].cleared() >= l)
    }

    /// The participants waiting at stage `l`.
    pub open spec fn waiting(self, l: int) -> Set<int> {
        Set::new(|i: int| 0 <= i < self.n() && self.pcs[i] == FilterPc::Waiting(l))
    }

    /// The waiting test at stage `l`: participant `i` may pass once every
    /// other participant is below `l` or `i` is no longer the victim
    /// recorded there.
    pub open spec fn may_pass(self, i: int, l: int) -> bool {
        (forall|k: int| 0 <= k < self.n() && k != i ==> #[trigger] self.levels[k] < l)
            || self.victims[l] != i
    }

    /// Everybody idle, no level published.
    pub open spec fn init(self) -> bool {
        &&& self.wf()
        &&& self.consistent()
        &&& forall|i: int| 0 <= i < self.n() ==> (#[trigger] self.pcs[i]) is Idle
    }
}

/// One atomic step of participant `i`: opening the first doorway, a
/// stage's victim write, the successful exit of a stage's waiting loop,
/// the climb into the next doorway, and the release.
pub enum FilterStep {
    Start,
    WriteVictim,
    Pass,
    Climb,
    Exit,
}

/// The transition relation: `post` follows from `pre` by participant `i`
/// taking `step`.
pub open spec fn filter_step(pre: FilterState, i: int, step: FilterStep, post: FilterState) -> bool {
    &&& pre.wf()
    &&& 0 <= i < pre.n()
    &&& match step {
        FilterStep::Start => {
            &&& pre.pcs[i] is Idle
            &&& post == (FilterState {
                levels: pre.levels.update(i, 1),
                pcs: pre.pcs.update(i, FilterPc::Doorway(1)),
                ..pre
            })
        },
        FilterStep::WriteVictim => {
            &&& pre.pcs[i] matches FilterPc::Doorway(l) && post == (FilterState {
                victims: pre.victims.update(l, i),
                pcs: pre.pcs.update(i, FilterPc::Waiting(l)),
                ..pre
            })
        },
        FilterStep::Pass => {
            &&& pre.pcs[i] matches FilterPc::Waiting(l) && pre.may_pass(i, l) && post == (
            FilterState { pcs: pre.pcs.update(i, FilterPc::Passed(l)), ..pre })
        },
        FilterStep::Climb => {
            &&& pre.pcs[i] matches FilterPc::Passed(l) && l < pre.n() - 1 && post == (FilterState {
                levels: pre.levels.update(i, l + 1),
                pcs: pre.pcs.update(i, FilterPc::Doorway(l + 1)),
                ..pre
            })
        },
        FilterStep::Exit => {
            &&& pre.pcs[i] == FilterPc::Passed(pre.n() - 1)
            &&& post == (FilterState {
                levels: pre.levels.update(i, 0),
                pcs: pre.pcs.update(i, FilterPc::Idle),
                ..pre
            })
        },
    }
}

/// The inductive invariant.  Beyond well-formedness and level
/// consistency: at most `n - l` participants have cleared stage `l`, and
/// whenever some participant waits at a stage while another has cleared
/// it, or two wait there together, the stage's victim slot names one of
/// the current waiters.
pub open spec fn filter_inv(s: FilterState) -> bool {
    &&& s.wf()
    &&& s.consistent()
    &&& forall|l: int|
        1 <= l <= s.n() - 1 ==> (#[trigger] s.above(l)).finite() && s.above(l).len() <= s.n() - l
    &&& forall|l: int, i: int, x: int|
        1 <= l <= s.n() - 1 && #[trigger] s.waiting(l).contains(i) && #[trigger] s.above(
            l,
        ).contains(x) ==> s.waiting(l).contains(s.victims[l])
    &&& forall|l: int, i: int, x: int|
        1 <= l <= s.n() - 1 && #[trigger] s.waiting(l).contains(i) && #[trigger] s.waiting(
            l,
        ).contains(x) && i != x ==> s.waiting(l).contains(s.victims[l])
}

/// A participant that cleared stage `l` publishes a level at least `l`.
proof fn lemma_filter_above_level(s: FilterState, l: int, a: int)
    requires
        s.wf(),
        s.consistent(),
        1 <= l,
        s.above(l).contains(a),
    ensures
        0 <= a < s.n(),
        s.levels[a] >= l,
        s.pcs[a].published() >= l,
{
}

/// Every stage's cleared set is finite and no larger than the whole field.
proof fn lemma_filter_above_finite(s: FilterState, l: int)
    requires
        s.wf(),
    ensures
        s.above(l).finite(),
        s.above(l).len() <= s.n(),
        s.waiting(l).finite(),
    decreases 0int,
{
    assert(s.above(l).subset_of(vstd::set_lib::set_int_range(0, s.n())));
    assert(s.waiting(l).subset_of(vstd::set_lib::set_int_range(0, s.n())));
    vstd::set_lib::lemma_int_range(0, s.n());
    lemma_len_subset(s.above(l), vstd::set_lib::set_int_range(0, s.n()));
    lemma_len_subset(s.waiting(l), vstd::set_lib::set_int_range(0, s.n()));
}

/// The initial state satisfies the invariant.
pub proof fn lemma_filter_init(s: FilterState)
    requires
        s.init(),
    ensures
        filter_inv(s),
{
    assert forall|l: int| 1 <= l <= s.n() - 1 implies (#[trigger] s.above(l)).finite() && s.above(
        l,
    ).len() <= s.n() - l by {
        assert(s.above(l) =~= Set::<int>::empty());
    }
    assert forall|l: int, i: int| 1 <= l <= s.n() - 1 implies !(#[trigger] s.waiting(l).contains(
        i,
    )) by {}
}

/// Every step of any participant preserves the invariant.
pub proof fn lemma_filter_step_preserves_inv(
    pre: FilterState,
    i: int,
    step: FilterStep,
    post: FilterState,
)
    requires
        filter_inv(pre),
        filter_step(pre, i, step, post),
    ensures
        filter_inv(post),
{
    let n = pre.n();
    match step {
        FilterStep::Start => {
            assert forall|l: int| 1 <= l <= n - 1 implies post.above(l) =~= pre.above(l)
                && post.waiting(l) =~= pre.waiting(l) by {}
        },
        FilterStep::WriteVictim => {
            let l0 = pre.pcs[i]->Doorway_0;
            assert forall|l: int| 1 <= l <= n - 1 implies post.above(l) =~= pre.above(l) by {}
            assert forall|l: int| 1 <= l <= n - 1 && l != l0 implies post.waiting(l) =~= pre.waiting(
                l,
            ) by {}
            assert(post.waiting(l0) =~= pre.waiting(l0).insert(i));
            assert(post.waiting(l0).contains(post.victims[l0]));
        },
        FilterStep::Pass => {
            let l0 = pre.pcs[i]->Waiting_0;
            assert forall|l: int| 1 <= l <= n - 1 && l != l0 implies post.above(l) =~= pre.above(l)
                && post.waiting(l) =~= pre.waiting(l) by {}
            assert(post.above(l0) =~= pre.above(l0).insert(i));
            assert(post.waiting(l0) =~= pre.waiting(l0).remove(i));
            lemma_filter_above_finite(pre, l0);
            lemma_filter_above_finite(pre, l0 - 1);
            assert(!pre.above(l0).contains(i));
            // The counting bound at the stage just cleared.
            if pre.above(l0).len() >= n - l0 {
                // With no room left, `i` can only proceed via the victim
                // disjunct, since `a` below keeps its published level too
                // high; yet the victim slot names the lone waiter `i`.
                assert(pre.above(l0).len() != 0);
                let a = pre.above(l0).choose();
                assert(pre.above(l0).contains(a));
                lemma_filter_above_level(pre, l0, a);
                assert(a != i);
                assert(!(pre.levels[a] < l0));
                assert(pre.victims[l0] != i);
                let v = pre.victims[l0];
                assert(pre.waiting(l0).contains(i));
                assert(pre.waiting(l0).contains(v));
                assert(v != i);
                // `i` and `v` wait at this stage and everything beyond it
                // cleared the previous one, so the previous stage carries
                // `n - l0 + 2` participants: one too many.
                let grown = pre.above(l0).insert(i).insert(v);
                assert(grown.len() == pre.above(l0).len() + 2);
                if l0 == 1 {
                    assert(grown.subset_of(vstd::set_lib::set_int_range(0, n)));
                    vstd::set_lib::lemma_int_range(0, n);
                    lemma_len_subset(grown, vstd::set_lib::set_int_range(0, n));
                    assert(false);
                } else {
                    assert forall|y: int| grown.contains(y) implies pre.above(l0 - 1).contains(
                        y,
                    ) by {
                        if y == i || y == v {
                            assert(pre.pcs[y] == FilterPc::Waiting(l0));
                        }
                    }
                    assert(grown.subset_of(pre.above(l0 - 1)));
                    lemma_len_subset(grown, pre.above(l0 - 1));
                    assert(false);
                }
            }
            assert(post.above(l0).len() <= n - l0);
            // The victim clauses at the stage just cleared: a second
            // waiter witnesses that the victim was a waiter other than
            // `i`.
            assert forall|j: int, x: int|
                #[trigger] post.waiting(l0).contains(j) && #[trigger] post.above(l0).contains(x)
                    implies post.waiting(l0).contains(post.victims[l0]) by {
                assert(pre.waiting(l0).contains(j));
                assert(pre.waiting(l0).contains(i));
                assert(j != i);
                let v = pre.victims[l0];
                assert(pre.waiting(l0).contains(v));
                assert(pre.levels[j] == l0);
                assert(!(pre.levels[j] < l0));
                assert(pre.victims[l0] != i);
                assert(post.waiting(l0).contains(v));
            }
            assert forall|j: int, x: int|
                #[trigger] post.waiting(l0).contains(j) && #[trigger] post.waiting(l0).contains(x)
                    && j != x implies post.waiting(l0).contains(post.victims[l0]) by {
                assert(pre.waiting(l0).contains(j));
                assert(pre.waiting(l0).contains(x));
                let v = pre.victims[l0];
                assert(pre.waiting(l0).contains(v));
                assert(pre.levels[j] == l0);
                assert(pre.victims[l0] != i);
                assert(post.waiting(l0).contains(v));
            }
        },
        FilterStep::Climb => {
            assert forall|l: int| 1 <= l <= n - 1 implies post.above(l) =~= pre.above(l)
                && post.waiting(l) =~= pre.waiting(l) by {}
        },
        FilterStep::Exit => {
            assert forall|l: int| 1 <= l <= n - 1 implies post.above(l) =~= pre.above(l).remove(i)
                && post.waiting(l) =~= pre.waiting(l) by {}
            assert forall|l: int| 1 <= l <= n - 1 implies (#[trigger] post.above(l)).finite()
                && post.above(l).len() <= n - l by {
                lemma_filter_above_finite(pre, l);
            }
        },
    }
}

/// Mutual exclusion: under the invariant, at most one participant is past
/// the top stage — in the critical section — at any instant.
pub proof fn lemma_filter_mutual_exclusion(s: FilterState, i: int, j: int)
    requires
        filter_inv(s),
        0 <= i < s.n(),
        0 <= j < s.n(),
        i != j,
    ensures
        !(s.pcs[i] == FilterPc::Passed(s.n() - 1) && s.pcs[j] == FilterPc::Passed(s.n() - 1)),
{
    let top = s.n() - 1;
    if s.pcs[i] == FilterPc::Passed(top) && s.pcs[j] == FilterPc::Passed(top) {
        let pair = Set::<int>::empty().insert(i).insert(j);
        assert(pair.len() == 2);
        assert(pair.subset_of(s.above(top)));
        lemma_len_subset(pair, s.above(top));
        assert(s.above(top).len() <= 1);
        assert(false);
    }
}

/// A run of the protocol: `trace` lists the states passed through and
/// `moves` the steps between them, each taken by some participant.
pub open spec fn filter_run(trace: Seq<FilterState>, moves: Seq<(int, FilterStep)>) -> bool {
    &&& trace.len() == moves.len() + 1
    &&& forall|k: int|
        0 <= k < moves.len() ==> #[trigger] filter_step(trace[k], moves[k].0, moves[k].1, trace[k + 1])
}

/// Every state of a run that starts in an initial state satisfies the
/// invariant, whatever the interleaving.
pub proof fn lemma_filter_run_inv(trace: Seq<FilterState>, moves: Seq<(int, FilterStep)>, k: int)
    requires
        trace[0].init(),
        filter_run(trace, moves),
        0 <= k < trace.len(),
    ensures
        filter_inv(trace[k]),
    decreases k,
{
    if k == 0 {
        lemma_filter_init(trace[0]);
    } else {
        lemma_filter_run_inv(trace, moves, k - 1);
        let j = k - 1;
        assert(filter_step(trace[j], moves[j].0, moves[j].1, trace[j + 1]));
        lemma_filter_step_preserves_inv(trace[j], moves[j].0, moves[j].1, trace[j + 1]);
    }
}

} // verus!
