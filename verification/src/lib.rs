//! Spin-lock algorithms over plain state, with verified transition contracts.
//!
//! The crate models a family of classic mutual-exclusion protocols
//! (Peterson, Filter, Bakery, test-and-set variants, the Array lock and the
//! queue locks CLH, MCS and a timeout-capable variant) together with the
//! primitives they share: a one-slot ownership-exchange cell, a one-shot
//! wait/notify handshake and randomized exponential backoff.  Every
//! operation is an explicit state transition whose effect is pinned down in
//! its contract; the algorithm-level theorems (mutual exclusion, progress,
//! ticket tie-breaks) are proved over spec-level models of the protocols.

pub mod acqrel;
pub mod atomic;
pub mod backoff;
pub mod guard;
pub mod hash;
pub mod listset;
pub mod lock;
pub mod notify;
