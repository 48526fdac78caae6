//! Ownership-transfer handshakes for queue locks.
//!
//! A [`Transferable`] couples a payload with a release flag.  The owning
//! side, [`AcquireBox`], may look at the payload only once the flag is up;
//! the releasing side, [`ReleasePtr`], is a token spent exactly once to
//! raise it.  [`RecursiveAcquire`] chains such boxes so that a waiter can
//! collapse a whole prefix of already-released predecessors in one walk, as
//! the timeout-capable queue lock needs.  Run on real threads, the
//! flag is an atomic raised with release ordering and awaited with acquire
//! loads; here it is plain state and the spin's exit condition becomes a
//! precondition.

use vstd::prelude::*;

verus! {

/// A payload guarded by a release flag.
pub struct Transferable<T> {
    flag: bool,
    t: T,
}

/// The owning side of a handshake: holds the allocation, may read the
/// payload once released.
pub struct AcquireBox<T> {
    inner: Box<Transferable<T>>,
}

/// The releasing side: a token consumed exactly once to release its box.
pub struct ReleasePtr<T> {
    _t: core::marker::PhantomData<T>,
}

impl<T> AcquireBox<T> {
    /// Whether the releasing side has already released this box.
    pub closed spec fn released(&self) -> bool {
        self.inner.flag
    }

    /// The payload, as contracts see it.
    pub closed spec fn payload(&self) -> T {
        self.inner.t
    }

    /// Create a box around `t` together with the token that releases it.
    pub fn new(t: T) -> (r: (AcquireBox<T>, ReleasePtr<T>))
        ensures
            !r.0.released(),
            r.0.payload() == t,
    {
        let inner = Box::new(Transferable { flag: false, t });
        (AcquireBox { inner }, ReleasePtr { _t: core::marker::PhantomData })
    }

    /// A box that starts out released, with no token attached; it seeds the
    /// first, uncontended element of a queue lock.
    pub fn acquired(t: T) -> (r: Self)
        ensures
            r.released(),
            r.payload() == t,
    {
        AcquireBox { inner: Box::new(Transferable { flag: true, t }) }
    }

    /// Poll for shared access: `Ok` exactly when the box is released.
    pub fn try_as_ref(&self) -> (r: Result<&T, ()>)
        ensures
            r is Ok <==> self.released(),
            r matches Ok(t) ==> *t == self.payload(),
    {
        if self.inner.flag {
            Ok(&self.inner.t)
        } else {
            Err(())
        }
    }

    /// Poll for exclusive access: `Ok` exactly when the box is released.
    pub fn try_as_mut(&mut self) -> (r: Result<&mut T, ()>)
        ensures
            r is Ok <==> old(self).released(),
            final(self).released() == old(self).released(),
            r matches Ok(t) ==> *t == old(self).payload() && final(self).payload() == *final(t),
            r is Err ==> *final(self) == *old(self),
    {
        if self.inner.flag {
            Ok(&mut self.inner.t)
        } else {
            Err(())
        }
    }

    /// Shared access to the payload.  A concurrent run spins until
    /// the box is released; that exit condition is the precondition here.
    pub fn as_ref(&self) -> (r: &T)
        requires
            self.released(),
        ensures
            *r == self.payload(),
    {
        &self.inner.t
    }

    /// Exclusive access to the payload, under the same condition as
    /// [`Self::as_ref`].
    pub fn as_mut(&mut self) -> (r: &mut T)
        requires
            old(self).released(),
        ensures
            *r == old(self).payload(),
            final(self).released(),
            final(self).payload() == *final(r),
    {
        &mut self.inner.t
    }

    /// Overwrite the payload regardless of the flag; the releasing side of
    /// a concurrent releaser does this through its pointer before it
    /// releases.
    pub fn put(&mut self, t: T)
        ensures
            final(self).payload() == t,
            final(self).released() == old(self).released(),
    {
        self.inner.t = t;
    }

    /// Consume a completed release and re-arm the box: the flag goes back
    /// down and a fresh release token is handed out.
    pub fn reset(&mut self) -> (r: ReleasePtr<T>)
        requires
            old(self).released(),
        ensures
            !final(self).released(),
            final(self).payload() == old(self).payload(),
    {
        self.inner.flag = false;
        ReleasePtr { _t: core::marker::PhantomData }
    }
}

impl<T: Default> AcquireBox<T> {
    /// A fresh pair around a defaulted payload.
    pub fn default() -> (r: (AcquireBox<T>, ReleasePtr<T>))
        ensures
            !r.0.released(),
    {
        AcquireBox::new(T::default())
    }

    /// An already-released box around a defaulted payload.
    pub fn default_acquired() -> (r: Self)
        ensures
            r.released(),
    {
        AcquireBox::acquired(T::default())
    }
}

impl<T> ReleasePtr<T> {
    /// Release the box `target`.  Consuming the token models both the
    /// explicit release and the release-on-drop of a concurrent setting:
    /// either way the token is spent exactly once.
    pub fn release(self, target: &mut AcquireBox<T>)
        ensures
            final(target).released(),
            final(target).payload() == old(target).payload(),
    {
        target.inner.flag = true;
    }
}

/// A chain of handshake boxes: each box's payload is the next, not yet
/// collapsed, link of the chain.
pub struct RecursiveAcquire {
    link: AcquireBox<Option<RecursiveAcquire>>,
}

impl RecursiveAcquire {
    /// The release flags along the chain, head first.
    pub closed spec fn chain(self) -> Seq<bool>
        decreases self,
    {
        seq![self.link.inner.flag] + match self.link.inner.t {
            Option::Some(next) => next.chain(),
            Option::None => Seq::empty(),
        }
    }

    /// The chain that remains after dropping every leading released link:
    /// `None` when the whole chain is released, otherwise the suffix whose
    /// head is the first link still withheld.
    pub closed spec fn collapsed(self) -> Option<RecursiveAcquire>
        decreases self,
    {
        if !self.link.inner.flag {
            Option::Some(self)
        } else {
            match self.link.inner.t {
                Option::Some(next) => next.collapsed(),
                Option::None => Option::None,
            }
        }
    }

    /// Whether the head link has been released.
    pub closed spec fn head_released(self) -> bool {
        self.link.inner.flag
    }

    /// The rest of the chain behind the head link.
    pub closed spec fn next_of(self) -> Option<RecursiveAcquire> {
        self.link.inner.t
    }

    /// Wrap a handshake box as the head of a chain.
    pub fn new(acquire: AcquireBox<Option<RecursiveAcquire>>) -> (r: Self)
        ensures
            r.head_released() == acquire.released(),
            r.next_of() == acquire.payload(),
    {
        RecursiveAcquire { link: acquire }
    }

    /// Install `next` as what the head hands over once released; the
    /// releasing side of the timeout lock re-attaches an uncollapsed
    /// remainder this way before it gives its node up.
    pub fn put_next(&mut self, next: Option<RecursiveAcquire>)
        ensures
            final(self).head_released() == old(self).head_released(),
            final(self).next_of() == next,
    {
        self.link.put(next);
    }

    /// Spend a release token on the chain's head box.
    pub fn release_head(&mut self, p: ReleasePtr<Option<RecursiveAcquire>>)
        ensures
            final(self).head_released(),
            final(self).next_of() == old(self).next_of(),
    {
        p.release(&mut self.link);
    }

    /// Release the deepest link of the chain.  The deepest link is the
    /// current holder's node: every arrival since stacked its own node on
    /// top, so the holder's release token belongs at the bottom.
    pub fn release_last(self, p: ReleasePtr<Option<RecursiveAcquire>>) -> (r: Self)
        ensures
            r.chain() == self.chain().update(self.chain().len() - 1, true),
    {
        let _ = p;
        self.mark_last()
    }

    /// Raise the deepest link's flag.
    fn mark_last(self) -> (r: Self)
        ensures
            r.chain() == self.chain().update(self.chain().len() - 1, true),
        decreases self.chain().len(),
    {
        let RecursiveAcquire { link } = self;
        let AcquireBox { inner } = link;
        let transferable = *inner;
        let Transferable { flag, t } = transferable;
        match t {
            None => {
                let out = RecursiveAcquire {
                    link: AcquireBox { inner: Box::new(Transferable { flag: true, t: None }) },
                };
                proof {
                    assert(out.chain() =~= self.chain().update(self.chain().len() - 1, true));
                }
                out
            },
            Some(next) => {
                proof {
                    assert(self.chain() == seq![flag] + next.chain());
                }
                let deeper = next.mark_last();
                let out = RecursiveAcquire {
                    link: AcquireBox {
                        inner: Box::new(Transferable { flag, t: Some(deeper) }),
                    },
                };
                proof {
                    assert(out.chain() =~= self.chain().update(self.chain().len() - 1, true));
                }
                out
            },
        }
    }

    /// Walk the chain, discarding every leading link that is already
    /// released: `None` means the whole chain was released, otherwise the
    /// first still-withheld suffix comes back.
    pub fn try_recur(self) -> (r: Option<Self>)
        ensures
            r == self.collapsed(),
        decreases self.chain().len(),
    {
        let ghost orig = self;
        let RecursiveAcquire { mut link } = self;
        match link.try_as_mut() {
            Ok(next) => {
                match next.take() {
                    Some(inner) => {
                        proof {
                            assert(orig.link.payload() == Option::Some(inner));
                            assert(orig.chain() == seq![true] + inner.chain());
                            assert(orig.collapsed() == inner.collapsed());
                        }
                        inner.try_recur()
                    },
                    None => None,
                }
            },
            Err(()) => {
                proof {
                    assert(orig == RecursiveAcquire { link });
                }
                Some(RecursiveAcquire { link })
            },
        }
    }
}

/// One unfolding of [`RecursiveAcquire::chain`] in terms of the head and
/// the rest of the chain.
pub proof fn lemma_chain_unfold(r: RecursiveAcquire)
    ensures
        r.chain() == seq![r.head_released()] + (match r.next_of() {
            Option::Some(next) => next.chain(),
            Option::None => Seq::<bool>::empty(),
        }),
{
}

/// A chain always has at least its head link.
pub proof fn lemma_chain_nonempty(r: RecursiveAcquire)
    ensures
        r.chain().len() >= 1,
{
    lemma_chain_unfold(r);
}

/// One unfolding of [`RecursiveAcquire::collapsed`]: an unreleased head
/// keeps the whole chain; a released head defers to the rest.
pub proof fn lemma_collapsed_unfold(r: RecursiveAcquire)
    ensures
        r.collapsed() == (if !r.head_released() {
            Option::Some(r)
        } else {
            match r.next_of() {
                Option::Some(next) => next.collapsed(),
                Option::None => Option::<RecursiveAcquire>::None,
            }
        }),
{
}

/// What the walk stops on is always a chain whose head is still
/// withheld, and walking it again goes nowhere new.
pub proof fn lemma_collapsed_head_blocked(r: RecursiveAcquire)
    ensures
        r.collapsed() matches Option::Some(rem) ==> !rem.head_released() && rem.collapsed()
            == Option::Some(rem),
    decreases r.chain().len(),
{
    if r.link.inner.flag {
        match r.link.inner.t {
            Option::Some(next) => {
                assert(r.chain() == seq![true] + next.chain());
                lemma_collapsed_head_blocked(next);
            },
            Option::None => {},
        }
    }
}

/// The chain collapses to nothing exactly when every link has been
/// released.
pub proof fn lemma_collapsed_released(r: RecursiveAcquire)
    ensures
        (r.collapsed() is None) <==> (forall|i: int| 0 <= i < r.chain().len() ==> r.chain()[i]),
    decreases r.chain().len(),
{
    if r.link.inner.flag {
        match r.link.inner.t {
            Option::Some(next) => {
                assert(r.chain() == seq![true] + next.chain());
                lemma_collapsed_released(next);
                if forall|i: int| 0 <= i < next.chain().len() ==> next.chain()[i] {
                    assert forall|i: int| 0 <= i < r.chain().len() implies r.chain()[i] by {
                        if i > 0 {
                            assert(r.chain()[i] == next.chain()[i - 1]);
                        }
                    }
                } else {
                    let j = choose|j: int| 0 <= j < next.chain().len() && !next.chain()[j];
                    assert(!r.chain()[j + 1]);
                }
            },
            Option::None => {
                assert(r.chain() == seq![true]);
            },
        }
    } else {
        assert(!r.chain()[0]);
    }
}

} // verus!
