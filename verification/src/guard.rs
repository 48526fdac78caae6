//! Guard tokens returned by the lock algorithms.
//!
//! A guard stands for held mutual exclusion.  It is produced only by an
//! `acquire` operation and spent exactly once by handing it back to the
//! lock's release operation, which runs the algorithm-specific unlock
//! protocol; consuming the token plays the role of the guard's drop in a
//! concurrent setting.  Each guard carries just what its release protocol
//! needs: the slot or queue position the holder occupies.

use vstd::prelude::*;
use crate::acqrel::ReleasePtr;

verus! {

/// Held exclusion in a flag-per-participant lock; releasing clears the
/// holder's flag.
pub struct FlagGuard {
    slot: usize,
}

impl FlagGuard {
    /// The flag slot the holder occupies.
    pub closed spec fn slot(&self) -> usize {
        self.slot
    }

    /// Wrap the holder's flag slot.
    pub fn new(slot: usize) -> (r: Self)
        ensures
            r.slot() == slot,
    {
        FlagGuard { slot }
    }

    /// Spend the guard, yielding the slot to release.
    pub fn into_slot(self) -> (r: usize)
        ensures
            r == self.slot(),
    {
        self.slot
    }
}

/// Held exclusion in a level-climbing lock; releasing resets the holder's
/// level to zero.
pub struct LevelGuard {
    slot: usize,
}

impl LevelGuard {
    /// The level slot the holder occupies.
    pub closed spec fn slot(&self) -> usize {
        self.slot
    }

    /// Wrap the holder's level slot.
    pub fn new(slot: usize) -> (r: Self)
        ensures
            r.slot() == slot,
    {
        LevelGuard { slot }
    }

    /// Spend the guard, yielding the slot to release.
    pub fn into_slot(self) -> (r: usize)
        ensures
            r == self.slot(),
    {
        self.slot
    }
}

/// Held exclusion in a test-and-set lock; releasing clears the single
/// locked flag.
pub struct TasGuard {}

impl TasGuard {
    /// Witness the locked flag.
    pub fn new() -> (r: Self) {
        TasGuard {  }
    }
}

/// Held exclusion in the array lock; releasing clears the holder's slot
/// flag and raises the successor's.
pub struct ArrayGuard {
    slot: usize,
}

impl ArrayGuard {
    /// The ticket the holder drew.
    pub closed spec fn slot(&self) -> usize {
        self.slot
    }

    /// Wrap the holder's ticket.
    pub fn new(slot: usize) -> (r: Self)
        ensures
            r.slot() == slot,
    {
        ArrayGuard { slot }
    }

    /// Spend the guard, yielding the ticket to release.
    pub fn into_slot(self) -> (r: usize)
        ensures
            r == self.slot(),
    {
        self.slot
    }
}

/// Held exclusion in a queue lock whose release raises a handshake flag:
/// the guard keeps the release token of the holder's own queue node,
/// together with a ghost stamp standing for that node's identity — on
/// real threads, its pointer.
pub struct ReleaseGuard<T> {
    release: ReleasePtr<T>,
    stamp: Ghost<nat>,
}

impl<T> ReleaseGuard<T> {
    /// The identity of the queue node this guard releases, as contracts
    /// see it.
    pub closed spec fn stamp_of(&self) -> nat {
        self.stamp@
    }

    /// Wrap the release token of the holder's queue node.
    pub fn new(release: ReleasePtr<T>) -> (r: Self) {
        ReleaseGuard { release, stamp: Ghost(0nat) }
    }

    /// Wrap the release token together with the identity of the node it
    /// belongs to.
    pub(crate) fn new_stamped(release: ReleasePtr<T>, stamp: Ghost<nat>) -> (r: Self)
        ensures
            r.stamp_of() == stamp@,
    {
        ReleaseGuard { release, stamp }
    }

    /// Hand the release token back so the lock can run the release
    /// protocol.
    pub fn into_release(self) -> (r: ReleasePtr<T>) {
        self.release
    }
}

/// Held exclusion in the list-based queue lock; the guard remembers the
/// holder's queue node.
pub struct McsGuard {
    node: usize,
}

impl McsGuard {
    /// The queue node the holder occupies.
    pub closed spec fn node(&self) -> usize {
        self.node
    }

    /// Wrap the holder's queue node.
    pub fn new(node: usize) -> (r: Self)
        ensures
            r.node() == node,
    {
        McsGuard { node }
    }

    /// Spend the guard, yielding the node to release.
    pub fn into_node(self) -> (r: usize)
        ensures
            r == self.node(),
    {
        self.node
    }
}

} // verus!
