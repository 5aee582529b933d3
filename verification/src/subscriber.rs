//! Pairs an observer with a subscription and routes signals to the observer
//! only while the subscription is open; after close, calls are silently
//! dropped, so unsubscription is safe concurrently with in-flight emission.
//! A terminal signal closes the subscription, which gives every pipeline
//! at most one terminal delivery.

use vstd::prelude::*;
use core::marker::PhantomData;
use crate::signal::Signal;
use crate::observer::Observer;
use crate::subscription::Subscription;

verus! {

/// A batch of signals in wire order: items first, a terminal (if any) last.
pub open spec fn all_next_until_last<Item, E>(s: Seq<Signal<Item, E>>) -> bool {
    forall|i: int| 0 <= i < s.len() - 1 ==> s[i] is Next
}

/// An observer guarded by a cancellation handle.
pub struct Subscriber<Item, E, O> {
    /// The guarded sink.
    pub observer: O,
    /// The cancellation handle; shared conceptually with the upstream chain.
    pub subscription: Subscription,
    /// Carries the item and error types of the observer.
    pub marker: PhantomData<(Item, E)>,
}

impl<Item, E, O: Observer<Item, E>> Subscriber<Item, E, O> {
    /// Whether the subscription has been closed.
    pub open spec fn closed(self) -> bool {
        self.subscription.is_closed_spec()
    }

    /// While open, the observer has not yet accepted a terminal signal.
    pub open spec fn wf(self) -> bool {
        !self.closed() ==> !self.observer.stopped()
    }

    /// Wrap a still-running observer with a fresh, open subscription.
    pub fn new(observer: O) -> (s: Subscriber<Item, E, O>)
        requires
            !observer.stopped(),
        ensures
            s.observer == observer,
            !s.closed(),
            s.wf(),
    {
        Subscriber { observer, subscription: Subscription::new(), marker: PhantomData }
    }

    /// Route one item to the observer; dropped if already closed.
    pub fn next(&mut self, value: Item)
        requires
            old(self).wf(),
        ensures
            final(self).wf(),
            old(self).closed() ==> *final(self) == *old(self),
            !old(self).closed() ==> final(self).observer.taken() == old(self).observer.taken().push(
                Signal::<Item, E>::Next(value),
            ) && !final(self).closed() && final(self).subscription == old(self).subscription,
    {
        if !self.subscription.is_closed() {
            self.observer.next(value);
        }
    }

    /// Route the terminal failure, then close; dropped if already closed.
    pub fn error(&mut self, err: E)
        requires
            old(self).wf(),
        ensures
            final(self).wf(),
            final(self).closed(),
            old(self).closed() ==> *final(self) == *old(self),
            !old(self).closed() ==> final(self).observer.taken() == old(self).observer.taken().push(
                Signal::<Item, E>::Error(err),
            ),
    {
        if !self.subscription.is_closed() {
            self.observer.error(err);
            self.subscription.unsubscribe();
        }
    }

    /// Route the terminal success, then close; dropped if already closed.
    pub fn complete(&mut self)
        requires
            old(self).wf(),
        ensures
            final(self).wf(),
            final(self).closed(),
            old(self).closed() ==> *final(self) == *old(self),
            !old(self).closed() ==> final(self).observer.taken() == old(self).observer.taken().push(
                Signal::<Item, E>::Complete,
            ),
    {
        if !self.subscription.is_closed() {
            self.observer.complete();
            self.subscription.unsubscribe();
        }
    }

    /// Route one signal of either kind.
    pub fn feed(&mut self, sig: Signal<Item, E>)
        requires
            old(self).wf(),
        ensures
            final(self).wf(),
            old(self).closed() ==> *final(self) == *old(self),
            !old(self).closed() ==> final(self).observer.taken() == old(self).observer.taken().push(
                sig,
            ) && (final(self).closed() == !(sig is Next)),
    {
        match sig {
            Signal::Next(value) => self.next(value),
            Signal::Error(err) => self.error(err),
            Signal::Complete => self.complete(),
        }
    }

    /// Route a whole batch of signals, items first and a terminal (if any)
    /// last, as a producer replaying a computed schedule would.
    pub fn feed_all(&mut self, signals: &Vec<Signal<Item, E>>)
        where
            Item: Copy,
            E: Copy,
        requires
            old(self).wf(),
            all_next_until_last(signals@),
        ensures
            final(self).wf(),
            old(self).closed() ==> *final(self) == *old(self),
            !old(self).closed() ==> final(self).observer.taken() == old(self).observer.taken()
                + signals@ && (final(self).closed() == (signals@.len() > 0 && !(signals@.last()
                is Next))),
    {
        let ghost pre = *self;
        let n = signals.len();
        let mut j: usize = 0;
        while j < n
            invariant
                j <= n,
                n == signals@.len(),
                all_next_until_last(signals@),
                self.wf(),
                pre.closed() ==> *self == pre,
                !pre.closed() ==> self.observer.taken() == pre.observer.taken()
                    + signals@.subrange(0, j as int),
                !pre.closed() && j < n ==> !self.closed(),
                !pre.closed() && j == n ==> (self.closed() == (n > 0 && !(signals@.last()
                    is Next))),
            decreases n - j,
        {
            let sig = signals[j];
            proof {
                assert(signals@.subrange(0, j + 1 as int) =~= signals@.subrange(0, j as int).push(
                    signals@[j as int],
                ));
            }
            self.feed(sig);
            j = j + 1;
        }
        proof {
            if !pre.closed() {
                assert(signals@.subrange(0, n as int) =~= signals@);
            }
        }
    }

    /// Close the subscription; idempotent, the observer is untouched.
    pub fn unsubscribe(&mut self)
        ensures
            final(self).closed(),
            final(self).observer == old(self).observer,
            final(self).wf(),
    {
        self.subscription.unsubscribe();
    }

    /// Whether the subscription has been closed.
    pub fn is_closed(&self) -> (r: bool)
        ensures
            r == self.closed(),
    {
        self.subscription.is_closed()
    }
}

} // verus!
