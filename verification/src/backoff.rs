//! Bounded exponential backoff with randomized jitter.
//!
//! Spin locks insert a randomized pause between failed acquisition
//! attempts to take pressure off the contended location.  Each step yields
//! a delay drawn uniformly below the current limit, then doubles the limit
//! up to a fixed ceiling.  Durations are counted in nanoseconds; the caller
//! spends the returned delay (the sleep itself is no concern of the
//! algorithm, whose correctness never depends on backoff timing).

use vstd::prelude::*;

verus! {

/// The backoff state: the current and the ceiling delay limit, in
/// nanoseconds.
pub struct Backoff {
    limit: u64,
    max_limit: u64,
}

impl Backoff {
    /// The current delay limit in nanoseconds.
    pub closed spec fn limit(&self) -> u64 {
        self.limit
    }

    /// The ceiling the limit never grows past.
    pub closed spec fn max_limit(&self) -> u64 {
        self.max_limit
    }

    /// Both limits stay positive, so a delay can always be drawn.
    pub open spec fn wf(&self) -> bool {
        1 <= self.limit() && 1 <= self.max_limit()
    }

    /// Start with an initial delay limit of `min` and a ceiling of `max`,
    /// both in nanoseconds and both at least one.
    pub fn new(min: u64, max: u64) -> (r: Self)
        requires
            1 <= min,
            1 <= max,
        ensures
            r.limit() == min,
            r.max_limit() == max,
            r.wf(),
    {
        Backoff { limit: min, max_limit: max }
    }

    /// One backoff step: draw a delay uniformly below the current limit,
    /// then double the limit, capped at the ceiling.  The caller spends the
    /// returned delay.
    pub fn backoff(&mut self) -> (delay: u64)
        requires
            old(self).wf(),
        ensures
            delay < old(self).limit(),
            final(self).limit() == if 2 * old(self).limit() <= old(self).max_limit() {
                2 * old(self).limit()
            } else {
                old(self).max_limit() as int
            },
            final(self).max_limit() == old(self).max_limit(),
            final(self).wf(),
    {
        let delay = random_below(self.limit);
        self.limit = if self.limit >= self.max_limit {
            self.max_limit
        } else if self.limit > self.max_limit / 2 {
            self.max_limit
        } else {
            2 * self.limit
        };
        delay
    }
}

/// A uniformly random value below `limit`.
fn random_below(limit: u64) -> (r: u64)
    requires
        1 <= limit,
    ensures
        r < limit,
{
    random_u64() % limit
}

/// Relies on `rand::random`: a uniformly drawn `u64`.  Nothing is assumed
/// of the drawn value.
#[verifier::external_body]
fn random_u64() -> u64 {
    rand::random::<u64>()
}

} // verus!
