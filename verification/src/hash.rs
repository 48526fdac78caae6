//! Hash keys for the list-based set.
//!
//! An element's key is a 64-bit word computed from the element alone;
//! [`Hashed`] caches it beside the element so that a list walk compares
//! cached words instead of recomputing them.
//!
//! The key is the element's own, trait-defined — an integer is its own
//! key.  A library hasher's digest depends on the hasher's seed and
//! build, so no contract could pin its value; a caller that wants
//! digest-style keys implements [`Hashable`] with the digest of its
//! choice, and everything here holds for it unchanged.

use vstd::prelude::*;

verus! {

/// A value with a 64-bit key of its own.
pub trait Hashable: Sized {
    /// The key, as contracts see it.
    spec fn key_spec(&self) -> u64;

    /// Compute the key.
    fn hash(&self) -> (r: u64)
        ensures
            r == self.key_spec(),
    ;
}

impl Hashable for u64 {
    open spec fn key_spec(&self) -> u64 {
        *self
    }

    fn hash(&self) -> (r: u64) {
        *self
    }
}

impl Hashable for u32 {
    open spec fn key_spec(&self) -> u64 {
        *self as u64
    }

    fn hash(&self) -> (r: u64) {
        *self as u64
    }
}

impl Hashable for u16 {
    open spec fn key_spec(&self) -> u64 {
        *self as u64
    }

    fn hash(&self) -> (r: u64) {
        *self as u64
    }
}

impl Hashable for u8 {
    open spec fn key_spec(&self) -> u64 {
        *self as u64
    }

    fn hash(&self) -> (r: u64) {
        *self as u64
    }
}

impl Hashable for bool {
    open spec fn key_spec(&self) -> u64 {
        if *self {
            1
        } else {
            0
        }
    }

    fn hash(&self) -> (r: u64) {
        if *self {
            1
        } else {
            0
        }
    }
}

impl Hashable for usize {
    open spec fn key_spec(&self) -> u64 {
        *self as u64
    }

    fn hash(&self) -> (r: u64) {
        *self as u64
    }
}

/// An element bundled with its cached key.
pub struct Hashed<T: Hashable> {
    item: T,
    key: u64,
}

impl<T: Hashable> Hashed<T> {
    /// The element, as contracts see it.
    pub closed spec fn item_of(&self) -> T {
        self.item
    }

    /// The cache holds the element's own key.
    pub open spec fn wf(&self) -> bool {
        self.key_spec() == self.item_of().key_spec()
    }

    /// Bundle `item` with its key.
    pub fn new(item: T) -> (r: Self)
        ensures
            r.wf(),
            r.item_of() == item,
    {
        let key = item.hash();
        Hashed { item, key }
    }

    /// Unwrap the element.
    pub fn get(self) -> (r: T)
        ensures
            r == self.item_of(),
    {
        self.item
    }
}

/// The cached key serves as the bundle's own key.
impl<T: Hashable> Hashable for Hashed<T> {
    closed spec fn key_spec(&self) -> u64 {
        self.key
    }

    fn hash(&self) -> (r: u64) {
        self.key
    }
}

} // verus!
