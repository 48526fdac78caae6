//! A set kept as a sorted singly-linked list of hashed elements.
//!
//! Elements are identified by their 64-bit keys, kept in strictly
//! ascending order, so membership walks stop at the first key that is not
//! smaller than the one sought.  [`SeqListSet`] is the sequential list;
//! [`CoarseListSet`] guards it with one lock around every operation.

use vstd::prelude::*;
use crate::guard::TasGuard;
use crate::hash::{Hashable, Hashed};
use crate::lock::{Lock, LockRef, TasLock, UnboundedLock};

verus! {

/// Membership, keyed by the elements' hash keys.
pub trait SetOps<T: Hashable>: Sized {
    /// The keys of the members, as contracts see them.
    spec fn set_view(&self) -> Set<u64>;

    /// The structure's internal invariant.
    spec fn wf_set(&self) -> bool;

    /// Whether an element with `element`'s key is a member.
    fn contains(&mut self, element: T) -> (r: bool)
        requires
            old(self).wf_set(),
        ensures
            final(self).wf_set(),
            final(self).set_view() == old(self).set_view(),
            r == old(self).set_view().contains(element.key_spec()),
    ;
}

/// Adding and removing members.
pub trait MutSet<T: Hashable>: SetOps<T> {
    /// Add `element`; report whether it was new.
    fn add(&mut self, element: T) -> (r: bool)
        requires
            old(self).wf_set(),
        ensures
            final(self).wf_set(),
            r == !old(self).set_view().contains(element.key_spec()),
            final(self).set_view() == old(self).set_view().insert(element.key_spec()),
    ;

    /// Remove the element with `element`'s key; report whether it was a
    /// member.
    fn remove(&mut self, element: T) -> (r: bool)
        requires
            old(self).wf_set(),
        ensures
            final(self).wf_set(),
            r == old(self).set_view().contains(element.key_spec()),
            final(self).set_view() == old(self).set_view().remove(element.key_spec()),
    ;
}

struct Node<T: Hashable> {
    item: Hashed<T>,
    next: Link<T>,
}

type Link<T> = Option<Box<Node<T>>>;

/// The keys held in the list hanging off `l`.
spec fn link_keys<T: Hashable>(l: Link<T>) -> Set<u64>
    decreases l,
{
    match l {
        Option::None => Set::empty(),
        Option::Some(node) => link_keys(node.next).insert(node.item.key_spec()),
    }
}

/// Every key in `l` is above `bound`, the keys ascend strictly, and every
/// cached key is its element's own.
spec fn link_sorted<T: Hashable>(l: Link<T>, bound: int) -> bool
    decreases l,
{
    match l {
        Option::None => true,
        Option::Some(node) => {
            &&& node.item.wf()
            &&& bound < node.item.key_spec()
            &&& link_sorted(node.next, node.item.key_spec() as int)
        },
    }
}

/// In a list sorted above `bound`, every key lies strictly above it.
proof fn lemma_keys_above<T: Hashable>(l: Link<T>, bound: int)
    requires
        link_sorted(l, bound),
    ensures
        forall|k: u64| link_keys(l).contains(k) ==> k > bound,
    decreases l,
{
    match l {
        Option::None => {
            assert(link_keys(l) =~= Set::<u64>::empty());
        },
        Option::Some(node) => {
            lemma_keys_above(node.next, node.item.key_spec() as int);
            assert forall|k: u64| link_keys(l).contains(k) implies k > bound by {
                if k != node.item.key_spec() {
                    assert(link_keys(node.next).contains(k));
                }
            }
        },
    }
}

/// A list sorted at all lifts to any bound below its head key.
proof fn lemma_sorted_raise_bound<T: Hashable>(l: Link<T>, bound: int)
    requires
        link_sorted(l, -1),
        l matches Option::Some(node) ==> node.item.key_spec() > bound,
    ensures
        link_sorted(l, bound),
{
}

fn link_contains<T: Hashable>(l: &Link<T>, key: u64) -> (r: bool)
    requires
        link_sorted(*l, -1),
    ensures
        r == link_keys(*l).contains(key),
    decreases *l,
{
    match l {
        None => {
            proof {
                assert(link_keys(*l) =~= Set::<u64>::empty());
            }
            false
        },
        Some(node) => {
            let nk = node.item.hash();
            if nk < key {
                proof {
                    lemma_sorted_weaken(node.next, nk as int, -1);
                }
                let r = link_contains(&node.next, key);
                proof {
                    assert(link_keys(*l) == link_keys(node.next).insert(node.item.key_spec()));
                    assert(r == link_keys(*l).contains(key));
                }
                r
            } else {
                proof {
                    if nk > key {
                        lemma_keys_above(node.next, nk as int);
                        assert(!link_keys(node.next).contains(key));
                        assert(link_keys(*l) == link_keys(node.next).insert(
                            node.item.key_spec(),
                        ));
                        assert(!link_keys(*l).contains(key));
                    } else {
                        assert(link_keys(*l).contains(key));
                    }
                }
                nk == key
            }
        },
    }
}

/// Sortedness above a bound also holds above any smaller bound.
proof fn lemma_sorted_weaken<T: Hashable>(l: Link<T>, bound: int, lower: int)
    requires
        link_sorted(l, bound),
        lower <= bound,
    ensures
        link_sorted(l, lower),
    decreases l,
{
}

fn link_add<T: Hashable>(l: Link<T>, item: Hashed<T>) -> (r: (Link<T>, bool))
    requires
        link_sorted(l, -1),
        item.wf(),
    ensures
        link_sorted(r.0, -1),
        r.1 == !link_keys(l).contains(item.key_spec()),
        link_keys(r.0) == link_keys(l).insert(item.key_spec()),
    decreases l,
{
    let key = item.hash();
    match l {
        None => {
            let out: Link<T> = Some(Box::new(Node { item, next: None }));
            proof {
                assert(link_sorted(Option::<Box<Node<T>>>::None, item.key_spec() as int));
                assert(link_sorted(out, -1));
                assert(link_keys(out) =~= link_keys(l).insert(item.key_spec()));
            }
            (out, true)
        },
        Some(node) => {
            let node = *node;
            let Node { item: here, next } = node;
            let nk = here.hash();
            if nk < key {
                proof {
                    lemma_sorted_weaken(next, nk as int, -1);
                }
                let (grown, r) = link_add(next, item);
                proof {
                    lemma_keys_above(next, nk as int);
                    match &grown {
                        Option::Some(m) => {
                            assert(link_keys(grown).contains(m.item.key_spec()));
                            if m.item.key_spec() != item.key_spec() {
                                assert(link_keys(next).contains(m.item.key_spec()));
                            }
                        },
                        Option::None => {},
                    }
                    lemma_sorted_raise_bound(grown, nk as int);
                }
                let out: Link<T> = Some(Box::new(Node { item: here, next: grown }));
                proof {
                    assert(link_sorted(grown, nk as int));
                    assert(here.wf());
                    assert(link_sorted(out, -1));
                    assert(link_keys(out) =~= link_keys(l).insert(item.key_spec()));
                    if link_keys(next).contains(item.key_spec()) {
                        assert(link_keys(l).contains(item.key_spec()));
                    } else {
                        assert(!link_keys(l).contains(item.key_spec()));
                    }
                }
                (out, r)
            } else if nk == key {
                let out: Link<T> = Some(Box::new(Node { item: here, next }));
                proof {
                    assert(link_sorted(out, -1));
                    assert(link_keys(out).contains(item.key_spec()));
                    assert(link_keys(out) =~= link_keys(l).insert(item.key_spec()));
                }
                (out, false)
            } else {
                proof {
                    lemma_keys_above(next, nk as int);
                    assert(!link_keys(next).contains(item.key_spec()));
                }
                let rest: Link<T> = Some(Box::new(Node { item: here, next }));
                proof {
                    lemma_sorted_raise_bound(rest, item.key_spec() as int);
                }
                let out: Link<T> = Some(Box::new(Node { item, next: rest }));
                proof {
                    assert(link_sorted(rest, item.key_spec() as int));
                    assert(link_sorted(out, -1));
                    assert(link_keys(out) =~= link_keys(l).insert(item.key_spec()));
                    assert(!link_keys(l).contains(item.key_spec()));
                }
                (out, true)
            }
        },
    }
}

fn link_remove<T: Hashable>(l: Link<T>, key: u64) -> (r: (Link<T>, bool))
    requires
        link_sorted(l, -1),
    ensures
        link_sorted(r.0, -1),
        r.1 == link_keys(l).contains(key),
        link_keys(r.0) == link_keys(l).remove(key),
    decreases l,
{
    match l {
        None => {
            proof {
                assert(link_keys(l) =~= link_keys(l).remove(key));
            }
            (None, false)
        },
        Some(node) => {
            let node = *node;
            let Node { item: here, next } = node;
            let nk = here.hash();
            if nk < key {
                proof {
                    lemma_sorted_weaken(next, nk as int, -1);
                }
                let (pruned, r) = link_remove(next, key);
                proof {
                    lemma_keys_above(next, nk as int);
                    match &pruned {
                        Option::Some(m) => {
                            assert(link_keys(pruned).contains(m.item.key_spec()));
                            assert(link_keys(next).contains(m.item.key_spec()));
                        },
                        Option::None => {},
                    }
                    lemma_sorted_raise_bound(pruned, nk as int);
                }
                let out: Link<T> = Some(Box::new(Node { item: here, next: pruned }));
                proof {
                    assert(link_keys(out) =~= link_keys(l).remove(key));
                    if link_keys(next).contains(key) {
                        assert(link_keys(l).contains(key));
                    } else {
                        assert(!link_keys(l).contains(key));
                    }
                }
                (out, r)
            } else if nk == key {
                proof {
                    lemma_keys_above(next, nk as int);
                    assert(!link_keys(next).contains(key));
                    assert(link_keys(next) =~= link_keys(l).remove(key));
                    lemma_sorted_weaken(next, nk as int, -1);
                }
                (next, true)
            } else {
                proof {
                    lemma_keys_above(next, nk as int);
                    assert(!link_keys(next).contains(key));
                }
                let out: Link<T> = Some(Box::new(Node { item: here, next }));
                proof {
                    assert(!link_keys(out).contains(key));
                    assert(link_keys(out) =~= link_keys(l).remove(key));
                }
                (out, false)
            }
        },
    }
}

/// The sequential sorted-list set.
pub struct SeqListSet<T: Hashable> {
    head: Link<T>,
}

impl<T: Hashable> SeqListSet<T> {
    /// The empty set.
    pub fn new() -> (r: Self)
        ensures
            r.wf_set(),
            r.set_view() == Set::<u64>::empty(),
    {
        SeqListSet { head: None }
    }
}

impl<T: Hashable> SetOps<T> for SeqListSet<T> {
    closed spec fn set_view(&self) -> Set<u64> {
        link_keys(self.head)
    }

    closed spec fn wf_set(&self) -> bool {
        link_sorted(self.head, -1)
    }

    fn contains(&mut self, element: T) -> (r: bool) {
        let key = element.hash();
        link_contains(&self.head, key)
    }
}

impl<T: Hashable> MutSet<T> for SeqListSet<T> {
    fn add(&mut self, element: T) -> (r: bool) {
        let item = Hashed::new(element);
        let head = self.head.take();
        let (grown, r) = link_add(head, item);
        self.head = grown;
        r
    }

    fn remove(&mut self, element: T) -> (r: bool) {
        let key = element.hash();
        let head = self.head.take();
        let (pruned, r) = link_remove(head, key);
        self.head = pruned;
        r
    }
}

/// The sorted-list set behind one lock: every operation runs inside a
/// critical section of a test-and-set lock.
pub struct CoarseListSet<T: Hashable> {
    seq: SeqListSet<T>,
    lock: TasLock,
}

impl<T: Hashable> CoarseListSet<T> {
    /// The empty set with its lock free.
    pub fn new() -> (r: Self)
        ensures
            r.wf_set(),
            r.set_view() == Set::<u64>::empty(),
    {
        CoarseListSet { seq: SeqListSet::new(), lock: TasLock::new() }
    }

    /// Borrow the lock and acquire exclusion for one operation; the
    /// caller hands the guard back to the lock when the operation is
    /// done.
    fn enter(&mut self) -> (g: TasGuard)
        requires
            !old(self).lock_held(),
        ensures
            final(self).seq_part() == old(self).seq_part(),
    {
        let borrowed = self.lock.borrow();
        let _ = borrowed;
        ().acquire(&mut self.lock)
    }

    /// Whether the inner lock is held.
    pub closed spec fn lock_held(&self) -> bool {
        self.lock.locked()
    }

    /// The inner sequential set.
    pub closed spec fn seq_part(&self) -> SeqListSet<T> {
        self.seq
    }
}

impl<T: Hashable> SetOps<T> for CoarseListSet<T> {
    closed spec fn set_view(&self) -> Set<u64> {
        self.seq.set_view()
    }

    closed spec fn wf_set(&self) -> bool {
        self.seq.wf_set() && !self.lock.locked()
    }

    fn contains(&mut self, element: T) -> (r: bool) {
        let guard = self.enter();
        let r = self.seq.contains(element);
        self.lock.release(guard);
        r
    }
}

impl<T: Hashable> MutSet<T> for CoarseListSet<T> {
    fn add(&mut self, element: T) -> (r: bool) {
        let guard = self.enter();
        let r = self.seq.add(element);
        self.lock.release(guard);
        r
    }

    fn remove(&mut self, element: T) -> (r: bool) {
        let guard = self.enter();
        let r = self.seq.remove(element);
        self.lock.release(guard);
        r
    }
}

} // verus!
