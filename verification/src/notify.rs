//! A one-shot wait/notify handshake.
//!
//! A pair consists of a [`Wait`] side, which holds the payload behind a
//! not-yet-notified flag, and a [`Notify`] side, a token that is consumed
//! exactly once to raise the flag.  The payload can be observed through the
//! `Wait` side only once the flag is up: the blocking accessors demand it
//! and the polling accessors report it.  Run on real threads, the
//! notifying side raises the flag with release ordering and the waiting
//! side spins with acquire loads; here the flag is plain state and the
//! spin's exit condition becomes the accessors' precondition.

use vstd::prelude::*;

verus! {

/// The waiting side of a handshake: one flag and the payload.
pub struct Wait<T> {
    flag: bool,
    t: T,
}

/// The notifying side: a token consumed by [`Notify::notify`] exactly once.
pub struct Notify<T> {
    _t: core::marker::PhantomData<T>,
}

impl<T> Wait<T> {
    /// Whether the pair has been notified.
    pub closed spec fn notified(&self) -> bool {
        self.flag
    }

    /// The payload, as contracts see it.
    pub closed spec fn payload(&self) -> T {
        self.t
    }

    /// Create a connected pair around the payload `t`, not yet notified.
    pub fn with(t: T) -> (r: (Wait<T>, Notify<T>))
        ensures
            !r.0.notified(),
            r.0.payload() == t,
    {
        (Wait { flag: false, t }, Notify { _t: core::marker::PhantomData })
    }

    /// A waiting side whose flag is already up, with no notifier attached;
    /// it seeds the first, uncontended element of a queue lock.
    pub fn already_notified_with(t: T) -> (w: Wait<T>)
        ensures
            w.notified(),
            w.payload() == t,
    {
        Wait { flag: true, t }
    }

    /// Shared access to the payload.  A concurrent run spins until
    /// the flag is up; that exit condition is the precondition here.
    pub fn wait(&self) -> (r: &T)
        requires
            self.notified(),
        ensures
            *r == self.payload(),
    {
        &self.t
    }

    /// Exclusive access to the payload, under the same condition as
    /// [`Self::wait`].
    pub fn wait_mut(&mut self) -> (r: &mut T)
        requires
            old(self).notified(),
        ensures
            *r == old(self).payload(),
            final(self).notified(),
            final(self).payload() == *final(r),
    {
        &mut self.t
    }

    /// Poll for the payload: `Ok` exactly when the pair has been notified.
    pub fn try_wait(&self) -> (r: Result<&T, ()>)
        ensures
            r is Ok <==> self.notified(),
            r matches Ok(t) ==> *t == self.payload(),
    {
        if self.flag {
            Ok(&self.t)
        } else {
            Err(())
        }
    }

    /// Poll for exclusive access: `Ok` exactly when notified.
    pub fn try_wait_mut(&mut self) -> (r: Result<&mut T, ()>)
        ensures
            r is Ok <==> old(self).notified(),
            final(self).notified() == old(self).notified(),
            r matches Ok(t) ==> *t == old(self).payload() && final(self).payload() == *final(t),
            r is Err ==> final(self).payload() == old(self).payload(),
    {
        if self.flag {
            Ok(&mut self.t)
        } else {
            Err(())
        }
    }

    /// Consume a completed notification and re-arm the pair: the flag goes
    /// back down and a fresh notifier token is handed out.
    pub fn wait_reset(&mut self) -> (n: Notify<T>)
        requires
            old(self).notified(),
        ensures
            !final(self).notified(),
            final(self).payload() == old(self).payload(),
    {
        self.flag = false;
        Notify { _t: core::marker::PhantomData }
    }
}

impl<T: Default> Wait<T> {
    /// A connected pair around a defaulted payload.
    pub fn new() -> (r: (Wait<T>, Notify<T>))
        ensures
            !r.0.notified(),
    {
        Wait::with(T::default())
    }

    /// An already-notified waiting side around a defaulted payload.
    pub fn already_notified() -> (w: Wait<T>)
        ensures
            w.notified(),
    {
        Wait::already_notified_with(T::default())
    }
}

impl<T> Notify<T> {
    /// Raise the flag of the waiting side `w`.  Consuming the token models
    /// both the explicit signal and the signal-on-drop of a concurrent
    /// setting: either way the token is spent exactly once.
    pub fn notify(self, w: &mut Wait<T>)
        ensures
            final(w).notified(),
            final(w).payload() == old(w).payload(),
    {
        w.flag = true;
    }

    /// Write the payload of the waiting side `w` without raising the
    /// flag.  On real threads the notifying side reaches the payload
    /// through its pointer and may write it any number of times before it
    /// signals; the token is only borrowed here, so the same holds.
    pub fn put(&self, w: &mut Wait<T>, t: T)
        ensures
            final(w).notified() == old(w).notified(),
            final(w).payload() == t,
    {
        w.t = t;
    }

    /// Deposit `t` as the payload and raise the flag in one handover:
    /// the transfer step of the handshake, spending the token.
    pub fn notify_with(self, w: &mut Wait<T>, t: T)
        ensures
            final(w).notified(),
            final(w).payload() == t,
    {
        w.t = t;
        w.flag = true;
    }
}

} // verus!
