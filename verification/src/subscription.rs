//! Cancellation handles. A subscription starts open and moves to closed
//! exactly once, whether by an explicit `unsubscribe` or after a terminal
//! signal; closing is idempotent. Operators propagate cancellation upstream
//! by sharing one handle along the whole chain.

use vstd::prelude::*;

verus! {

/// The open/closed state of one active subscribe relationship.
#[derive(Clone, Copy, Debug, PartialEq, Eq, Structural)]
pub struct Subscription {
    pub closed: bool,
}

impl Subscription {
    /// Whether the handle has been closed.
    pub open spec fn is_closed_spec(self) -> bool {
        self.closed
    }

    /// A fresh, open subscription.
    pub fn new() -> (s: Subscription)
        ensures
            !s.is_closed_spec(),
    {
        Subscription { closed: false }
    }

    /// Close the handle. Safe to call any number of times; after the first
    /// call the state never changes again.
    pub fn unsubscribe(&mut self)
        ensures
            final(self).is_closed_spec(),
            *final(self) == (Subscription { closed: true }),
    {
        self.closed = true;
    }

    /// Whether the handle has been closed.
    pub fn is_closed(&self) -> (r: bool)
        ensures
            r == self.is_closed_spec(),
    {
        self.closed
    }
}

} // verus!
