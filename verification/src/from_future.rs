//! The future-to-observable bridge: adapts a one-shot computation into an
//! at-most-once-emitting observable. The executor that runs the computation
//! lives outside this core; it hands the resolved value (or result) in, and
//! the slot decides what may still be emitted. The computation is never
//! cancelled by an early unsubscribe — it runs to completion and its result
//! is then discarded.

use vstd::prelude::*;
use crate::signal::Signal;
use crate::observer::Observer;
use crate::subscriber::Subscriber;
use crate::observable::{Observable, Stamped, Ending, ExecMode};

verus! {

/// One-shot adapter: holds the subscriber from subscribe time until the
/// wrapped computation resolves, then releases it. Consuming the slot on
/// resolution makes a second emission impossible by construction.
pub struct FutureSlot<Item, E, O> {
    /// The downstream subscriber awaiting the resolution.
    pub subscriber: Subscriber<Item, E, O>,
}

impl<Item, E, O: Observer<Item, E>> FutureSlot<Item, E, O> {
    /// Hold a subscriber until the computation resolves.
    pub fn new(subscriber: Subscriber<Item, E, O>) -> (r: FutureSlot<Item, E, O>)
        ensures
            r.subscriber == subscriber,
    {
        FutureSlot { subscriber }
    }

    /// The computation resolved with `value`: if the subscription is still
    /// open, emit exactly `next(value)` then `complete`, and close; if it was
    /// unsubscribed early, discard the result. A computation whose own result
    /// encodes failure still arrives here as an ordinary value, never as an
    /// `error` signal.
    pub fn resolve(self, value: Item) -> (r: Subscriber<Item, E, O>)
        requires
            self.subscriber.wf(),
        ensures
            r.wf(),
            r.closed(),
            self.subscriber.closed() ==> r == self.subscriber,
            !self.subscriber.closed() ==> r.observer.taken() == self.subscriber.observer.taken()
                + seq![Signal::<Item, E>::Next(value), Signal::<Item, E>::Complete],
    {
        let mut s = self.subscriber;
        if !s.is_closed() {
            let ghost pre = s.observer.taken();
            s.next(value);
            s.complete();
            proof {
                assert(s.observer.taken() =~= pre + seq![
                    Signal::<Item, E>::Next(value),
                    Signal::<Item, E>::Complete,
                ]);
            }
        } else {
            s.unsubscribe();
        }
        s
    }

    /// The computation resolved with a result: success emits the value then
    /// completes; failure forwards the error as the terminal signal — no
    /// completion follows it.
    pub fn resolve_result(self, result: Result<Item, E>) -> (r: Subscriber<Item, E, O>)
        requires
            self.subscriber.wf(),
        ensures
            r.wf(),
            r.closed(),
            self.subscriber.closed() ==> r == self.subscriber,
            (!self.subscriber.closed() && result is Ok) ==> r.observer.taken()
                == self.subscriber.observer.taken() + seq![
                Signal::<Item, E>::Next(result->Ok_0),
                Signal::<Item, E>::Complete,
            ],
            (!self.subscriber.closed() && result is Err) ==> r.observer.taken()
                == self.subscriber.observer.taken() + seq![Signal::<Item, E>::Error(result->Err_0)],
    {
        match result {
            Ok(value) => self.resolve(value),
            Err(err) => {
                let mut s = self.subscriber;
                if !s.is_closed() {
                    let ghost pre = s.observer.taken();
                    s.error(err);
                    proof {
                        assert(s.observer.taken() =~= pre + seq![Signal::<Item, E>::Error(err)]);
                    }
                } else {
                    s.unsubscribe();
                }
                s
            },
        }
    }
}

/// The observable for a computation that resolved with `value` at instant
/// `at`: thread-safe, and its subscribers receive exactly `next(value)` then
/// `complete`. A result that encodes failure is still an ordinary value here.
pub fn from_future<Item>(value: Item, at: u64) -> (r: Observable<Item, ()>)
    ensures
        r.wf(),
        r.mode == ExecMode::Shared,
        r.signals_spec() == seq![Signal::<Item, ()>::Next(value), Signal::<Item, ()>::Complete],
{
    let mut emissions: Vec<Stamped<Item>> = Vec::new();
    emissions.push(Stamped { at, value });
    let o = Observable::new(emissions, at, Ending::<()>::Completed);
    let ghost shared = o.shared_of();
    proof {
        assert(shared.values_spec() =~= seq![value]);
        assert(shared.signals_spec() =~= seq![
            Signal::<Item, ()>::Next(value),
            Signal::<Item, ()>::Complete,
        ]);
    }
    o.to_shared()
}

/// The observable for a computation that resolved with `result` at instant
/// `at`: success delivers exactly `next` then `complete`; failure delivers
/// exactly `error`, with no completion.
pub fn from_future_with_err<Item, E>(result: Result<Item, E>, at: u64) -> (r: Observable<Item, E>)
    ensures
        r.wf(),
        r.mode == ExecMode::Shared,
        result matches Ok(value) ==> r.signals_spec() == seq![
            Signal::<Item, E>::Next(value),
            Signal::<Item, E>::Complete,
        ],
        result matches Err(err) ==> r.signals_spec() == seq![Signal::<Item, E>::Error(err)],
{
    match result {
        Ok(value) => {
            let mut emissions: Vec<Stamped<Item>> = Vec::new();
            emissions.push(Stamped { at, value });
            let o = Observable::new(emissions, at, Ending::<E>::Completed);
            let ghost shared = o.shared_of();
            proof {
                assert(shared.values_spec() =~= seq![value]);
                assert(shared.signals_spec() =~= seq![
                    Signal::<Item, E>::Next(value),
                    Signal::<Item, E>::Complete,
                ]);
            }
            o.to_shared()
        },
        Err(err) => {
            let emissions: Vec<Stamped<Item>> = Vec::new();
            let o = Observable::new(emissions, at, Ending::<E>::Failed(err));
            let ghost shared = o.shared_of();
            proof {
                assert(shared.values_spec() =~= Seq::<Item>::empty());
                assert(shared.signals_spec() =~= seq![Signal::<Item, E>::Error(err)]);
            }
            o.to_shared()
        },
    }
}

} // verus!
