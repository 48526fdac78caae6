//! A one-slot cell that always owns exactly one value.
//!
//! The cell is the sequential model of an atomic-owned-pointer slot: every
//! operation exchanges ownership atomically from the caller's point of view,
//! and the displaced value is always handed back, so nothing is ever leaked
//! or dropped twice.  Compare-and-swap goes by a raw machine word that
//! stands for the identity of the held value.  Exchanging operations take
//! the memory ordering their call site needs on real hardware; the
//! one-slot model is sequentially consistent whatever ordering is asked
//! for, so the argument does not change what is exchanged.

use core::sync::atomic::Ordering;
use vstd::prelude::*;

verus! {

/// A value that can live inside an [`Atomic`] cell.
///
/// `raw_spec` is the machine word that stands for the value's identity in
/// compare-and-swap operations; for plain integers and booleans it is the
/// value itself.
pub trait Atomizable: Sized {
    /// The identity word of this value, as contracts see it.
    spec fn raw_spec(&self) -> u64;

    /// The identity word of this value.
    fn as_raw(&self) -> (r: u64)
        ensures
            r == self.raw_spec(),
    ;
}

impl Atomizable for bool {
    open spec fn raw_spec(&self) -> u64 {
        if *self {
            1
        } else {
            0
        }
    }

    fn as_raw(&self) -> (r: u64) {
        if *self {
            1
        } else {
            0
        }
    }
}

impl Atomizable for u8 {
    open spec fn raw_spec(&self) -> u64 {
        *self as u64
    }

    fn as_raw(&self) -> (r: u64) {
        *self as u64
    }
}

impl Atomizable for u16 {
    open spec fn raw_spec(&self) -> u64 {
        *self as u64
    }

    fn as_raw(&self) -> (r: u64) {
        *self as u64
    }
}

impl Atomizable for u32 {
    open spec fn raw_spec(&self) -> u64 {
        *self as u64
    }

    fn as_raw(&self) -> (r: u64) {
        *self as u64
    }
}

impl Atomizable for u64 {
    open spec fn raw_spec(&self) -> u64 {
        *self
    }

    fn as_raw(&self) -> (r: u64) {
        *self
    }
}

impl Atomizable for usize {
    open spec fn raw_spec(&self) -> u64 {
        *self as u64
    }

    fn as_raw(&self) -> (r: u64) {
        *self as u64
    }
}

/// An absent value has identity word 0, like a null pointer; a present value
/// keeps its own identity word.
impl<T: Atomizable> Atomizable for Option<T> {
    open spec fn raw_spec(&self) -> u64 {
        match *self {
            Option::None => 0,
            Option::Some(ref t) => t.raw_spec(),
        }
    }

    fn as_raw(&self) -> (r: u64) {
        match self {
            Option::None => 0,
            Option::Some(t) => t.as_raw(),
        }
    }
}

/// The one-slot owning cell.  Its view is the value it currently holds.
pub struct Atomic<T: Atomizable> {
    t: T,
}

impl<T: Atomizable> View for Atomic<T> {
    type V = T;

    closed spec fn view(&self) -> T {
        self.t
    }
}

impl<T: Atomizable> Atomic<T> {
    /// Install `t` as the owned content of a fresh cell.
    pub fn new(t: T) -> (r: Self)
        ensures
            r@ == t,
    {
        Atomic { t }
    }

    /// Dissolve the cell and hand its content back, exactly once.
    pub fn into_inner(self) -> (r: T)
        ensures
            r == self@,
    {
        self.t
    }

    /// Replace the held value with `t`; the displaced value is returned to
    /// the caller, which becomes responsible for it.
    pub fn swap(&mut self, t: T, order: Ordering) -> (r: T)
        ensures
            r == old(self)@,
            final(self)@ == t,
    {
        let _ = order;
        let mut t = t;
        core::mem::swap(&mut self.t, &mut t);
        t
    }

    /// Replace the held value with `new` only if the held value's identity
    /// word equals `current`; on success the displaced value comes back as
    /// `Ok`, on failure `new` itself comes back as `Err`, so the caller
    /// never loses ownership of the value it tried to install.
    pub fn compare_swap_strong(&mut self, current: u64, new: T, order: Ordering) -> (r: Result<
        T,
        T,
    >)
        ensures
            old(self)@.raw_spec() == current ==> final(self)@ == new && r == Result::<T, T>::Ok(
                old(self)@,
            ),
            old(self)@.raw_spec() != current ==> final(self)@ == old(self)@ && r == Result::<T, T>::Err(
                new,
            ),
    {
        if self.t.as_raw() == current {
            Ok(self.swap(new, order))
        } else {
            Err(new)
        }
    }

    /// Same exchange as [`Self::compare_swap_strong`]; in this sequential
    /// model the weak form never fails spuriously.
    pub fn compare_swap_weak(&mut self, current: u64, new: T, order: Ordering) -> (r: Result<
        T,
        T,
    >)
        ensures
            old(self)@.raw_spec() == current ==> final(self)@ == new && r == Result::<T, T>::Ok(
                old(self)@,
            ),
            old(self)@.raw_spec() != current ==> final(self)@ == old(self)@ && r == Result::<T, T>::Err(
                new,
            ),
    {
        self.compare_swap_strong(current, new, order)
    }

    /// Exclusive access to the held value.
    pub fn get_mut(&mut self) -> (r: &mut T)
        ensures
            *r == old(self)@,
            final(self)@ == *final(r),
    {
        &mut self.t
    }

    /// Overwrite the held value, dropping the displaced one.
    pub fn store(&mut self, t: T, order: Ordering)
        ensures
            final(self)@ == t,
    {
        let _ = self.swap(t, order);
    }
}

impl<T: Atomizable + Copy> Atomic<T> {
    /// Read the held value.
    pub fn load(&self, order: Ordering) -> (r: T)
        ensures
            r == self@,
    {
        let _ = order;
        self.t
    }
}

impl<T: Atomizable> Atomic<Option<T>> {
    /// Take the held value out, leaving `None` in its place.
    pub fn take(&mut self, order: Ordering) -> (r: Option<T>)
        ensures
            r == old(self)@,
            final(self)@ is None,
    {
        self.swap(None, order)
    }
}

} // verus!
