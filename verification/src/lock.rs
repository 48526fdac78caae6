//! The lock abstraction: bounded and unbounded mutual-exclusion locks.
//!
//! A lock hands out *references*; a participant acquires mutual exclusion
//! through its reference and receives a guard, which it later hands back
//! to the lock's release operation.  Bounded locks serve a fixed,
//! pre-declared number of identity-bearing references and refuse further
//! borrows recoverably; unbounded locks hand out references freely.
//! Bounded registration is a bare counter, as on real threads: issued
//! identities derive from the count alone and stay pairwise distinct
//! only while references are handed back newest-first.
//!
//! Each algorithm's `acquire` names, as its precondition, the state in
//! which its entry test succeeds at once — the very condition whose
//! becoming true ends the spin of a concurrent run.

pub mod array;
pub mod bakery;
pub mod clh;
pub mod filter;
pub mod mcs;
pub mod peterson;
pub mod tas;
pub mod timeout;
pub mod ttas;

pub use array::{ArrayLock, ArrayRef};
pub use bakery::{BakeryLock, BakeryRef};
pub use clh::ClhLock;
pub use filter::{FilterLock, FilterRef};
pub use mcs::McsLock;
pub use peterson::{PetersonLock, PetersonRef};
pub use tas::TasLock;
pub use timeout::{TimeoutGuard, TimeoutLock};
pub use ttas::{BackoffLock, TtasLock};

use vstd::prelude::*;

verus! {

/// Why a lock declined to hand out a reference.
#[derive(Debug, PartialEq, Eq, Structural, Clone, Copy)]
pub enum BorrowError {
    /// The lock's fixed participant capacity is fully borrowed.
    ThreadCapacityExceeded,
}

/// A mutual-exclusion lock that hands out participant references.
pub trait Lock: Sized {
    /// The per-participant reference type.
    type Ref;

    /// Whether a reference is available to hand out.
    spec fn borrowable(&self) -> bool;

    /// How a successful borrow changes the lock and which reference it
    /// hands out.
    spec fn borrowed(pre: &Self, post: &Self, r: &Self::Ref) -> bool;

    /// Obtain a reference, or report that the capacity is exhausted.
    fn borrow(&mut self) -> (r: Result<Self::Ref, BorrowError>)
        ensures
            r is Ok <==> old(self).borrowable(),
            r matches Ok(rf) ==> Self::borrowed(&*old(self), &*final(self), &rf),
            r is Err ==> *final(self) == *old(self),
    ;
}

/// A lock that serves a fixed, pre-declared number of participants.
pub trait BoundedLock: Lock {
    /// The participant capacity, as contracts see it.
    spec fn capacity_spec(&self) -> int;

    /// How many references are still available.
    spec fn refs_left_spec(&self) -> int;

    /// Which capacities the algorithm supports; construction with any
    /// other capacity is a programming error, not a runtime condition.
    spec fn supported_capacity(max_threads: usize) -> bool;

    /// Construct a lock for at most `max_threads` participants.
    fn with_capacity(max_threads: usize) -> (r: Self)
        requires
            Self::supported_capacity(max_threads),
        ensures
            max_threads <= r.capacity_spec(),
            r.refs_left_spec() == r.capacity_spec(),
    ;

    /// The participant capacity.
    fn capacity(&self) -> (r: usize)
        ensures
            r == self.capacity_spec(),
    ;

    /// How many references are still available.
    fn refs_left(&self) -> (r: usize)
        ensures
            r == self.refs_left_spec(),
    ;

    /// A bounded lock hands out a reference exactly while some are left.
    proof fn borrowable_iff_refs_left(&self)
        ensures
            self.borrowable() <==> self.refs_left_spec() > 0,
    ;
}

/// A lock that serves any number of participants.
pub trait UnboundedLock: Lock {
    /// Construct the lock, free.
    fn new() -> (r: Self);

    /// An unbounded lock always hands out a reference.
    proof fn always_borrowable(&self)
        ensures
            self.borrowable(),
    ;
}

/// A participant's reference to a lock of type `L`: the handle through
/// which mutual exclusion is acquired.
pub trait LockRef<L>: Sized {
    /// The guard standing for the held exclusion.
    type Guard;

    /// The state in which this participant's entry test succeeds at once;
    /// a concurrent run spins until the other participants bring
    /// the lock into such a state.
    spec fn can_acquire(&self, lock: &L) -> bool;

    /// How a successful acquisition changes the lock and what the guard
    /// records.
    spec fn acquired(&self, pre: &L, post: &L, g: &Self::Guard) -> bool;

    /// Acquire mutual exclusion and obtain the guard.
    fn acquire(&self, lock: &mut L) -> (g: Self::Guard)
        requires
            self.can_acquire(&*old(lock)),
        ensures
            self.acquired(&*old(lock), &*final(lock), &g),
    ;
}

} // verus!
