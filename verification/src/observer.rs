//! The observer protocol: a sink accepting `next` items and at most one
//! terminal signal. The trait contract records every accepted signal in an
//! abstract history, so downstream effects of an operator can be stated
//! exactly. A well-behaved producer never signals a stopped observer; the
//! `Subscriber` wrapper enforces that gate for arbitrary producers.

use vstd::prelude::*;
use crate::signal::Signal;

verus! {

/// A sink receiving `next`/`error`/`complete` signals.
///
/// `taken()` is the abstract history of accepted signals; each method states
/// exactly how it grows. The `requires` clauses encode the protocol of a
/// well-behaved producer: no signal follows a terminal one.
pub trait Observer<Item, E>: Sized {
    /// The sequence of signals this observer has accepted so far.
    spec fn taken(&self) -> Seq<Signal<Item, E>>;

    /// Whether a terminal signal (`error` or `complete`) has been accepted.
    spec fn stopped(&self) -> bool;

    /// Deliver one item.
    fn next(&mut self, value: Item)
        requires
            !old(self).stopped(),
        ensures
            final(self).taken() == old(self).taken().push(Signal::<Item, E>::Next(value)),
            !final(self).stopped(),
    ;

    /// Deliver the terminal failure.
    fn error(&mut self, err: E)
        requires
            !old(self).stopped(),
        ensures
            final(self).taken() == old(self).taken().push(Signal::<Item, E>::Error(err)),
            final(self).stopped(),
    ;

    /// Deliver the terminal success.
    fn complete(&mut self)
        requires
            !old(self).stopped(),
        ensures
            final(self).taken() == old(self).taken().push(Signal::<Item, E>::Complete),
            final(self).stopped(),
    ;

    /// Whether this observer has accepted a terminal signal.
    fn is_stopped(&self) -> (r: bool)
        ensures
            r == self.stopped(),
    ;
}

/// An observer that records every accepted signal, in order. The reference
/// sink for stating and checking what a pipeline delivers.
#[derive(Clone, Debug)]
pub struct CollectObserver<Item, E> {
    /// Every signal accepted so far, in arrival order.
    pub signals: Vec<Signal<Item, E>>,
    /// Whether a terminal signal has arrived.
    pub done: bool,
}

impl<Item, E> CollectObserver<Item, E> {
    /// An empty, still-running recorder.
    pub fn new() -> (r: CollectObserver<Item, E>)
        ensures
            r.taken() == Seq::<Signal<Item, E>>::empty(),
            !r.stopped(),
    {
        CollectObserver { signals: Vec::new(), done: false }
    }
}

impl<Item, E> Observer<Item, E> for CollectObserver<Item, E> {
    open spec fn taken(&self) -> Seq<Signal<Item, E>> {
        self.signals@
    }

    open spec fn stopped(&self) -> bool {
        self.done
    }

    fn next(&mut self, value: Item) {
        self.signals.push(Signal::Next(value));
    }

    fn error(&mut self, err: E) {
        self.signals.push(Signal::Error(err));
        self.done = true;
    }

    fn complete(&mut self) {
        self.signals.push(Signal::Complete);
        self.done = true;
    }

    fn is_stopped(&self) -> (r: bool) {
        self.done
    }
}

} // verus!
