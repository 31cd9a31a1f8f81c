//! Inter-task signalling primitives of the remote firmware and the named signals
//! built on them.
//!
//! A [`Latch`] is a single-observer event register: `signal` latches a value and
//! `try_take` consumes it, so an event cannot be lost between a producer and a
//! slower consumer, and is delivered exactly once.

use vstd::prelude::*;

pub mod reset_imu;
pub mod save_config;

verus! {

/// The pending value of a latch after `signal(v)`: the new value replaces any older one.
pub open spec fn latch_signal<T>(pending: Option<T>, v: T) -> Option<T> {
    Some(v)
}

/// What `try_take` returns on a latch holding `pending`: the pending value, if any.
pub open spec fn latch_taken<T>(pending: Option<T>) -> Option<T> {
    pending
}

/// The pending value of a latch after `try_take`: nothing.
pub open spec fn latch_after_take<T>(pending: Option<T>) -> Option<T> {
    None
}

/// A one-shot event register.
pub struct Latch<T> {
    /// The latched, not yet consumed, value.
    pub pending: Option<T>,
}

impl<T> View for Latch<T> {
    type V = Option<T>;

    open spec fn view(&self) -> Option<T> {
        self.pending
    }
}

impl<T> Latch<T> {
    /// A latch with nothing pending.
    pub fn new() -> (r: Self)
        ensures
            r@ is None,
    {
        Latch { pending: None }
    }

    /// Latches `v`, replacing any value not yet taken.
    pub fn signal(&mut self, v: T)
        ensures
            final(self)@ == latch_signal(old(self)@, v),
    {
        self.pending = Some(v);
    }

    /// Consumes the pending value, if any. Non-blocking.
    pub fn try_take(&mut self) -> (r: Option<T>)
        ensures
            r == latch_taken(old(self)@),
            final(self)@ == latch_after_take(old(self)@),
    {
        self.pending.take()
    }
}

/// A latched event is delivered by the first `try_take` after it and by no later one,
/// whatever was pending before: an edge is neither lost nor forwarded twice.
pub proof fn lemma_latch_delivers_once<T>(pending: Option<T>, v: T)
    ensures
        latch_taken(latch_signal(pending, v)) == Some(v),
        latch_taken(latch_after_take(latch_signal(pending, v))) is None,
{
}

/// Signalling twice before a take delivers one event, carrying the later value.
pub proof fn lemma_latch_coalesces<T>(pending: Option<T>, v1: T, v2: T)
    ensures
        latch_taken(latch_signal(latch_signal(pending, v1), v2)) == Some(v2),
        latch_taken(latch_after_take(latch_signal(latch_signal(pending, v1), v2))) is None,
{
}

} // verus!
