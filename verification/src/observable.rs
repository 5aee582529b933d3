//! Observables as deterministic timed scripts: what a source will emit, at
//! which monotonic timestamps, and how it ends. Subscribing replays the
//! script through a `Subscriber`, so every operator is a verified function
//! from script to delivered signals. The execution mode records whether the
//! pipeline is confined to one logical context or may cross threads; it never
//! changes what is delivered.

use vstd::prelude::*;
use crate::signal::{Signal, as_next};
use crate::observer::Observer;
use crate::subscriber::{Subscriber, all_next_until_last};

verus! {

/// The execution model a pipeline instance runs under.
#[derive(Clone, Copy, Debug, PartialEq, Eq, Structural)]
pub enum ExecMode {
    /// Single-thread-affine: one cooperative logical context, no sharing.
    Local,
    /// Thread-safe: emission and cancellation may cross worker threads.
    Shared,
}

/// One upstream emission with its monotonic timestamp.
#[derive(Clone, Copy, Debug, PartialEq, Eq)]
pub struct Stamped<Item> {
    /// When the value is produced.
    pub at: u64,
    /// The produced value.
    pub value: Item,
}

/// How a source ends: terminal success or terminal failure.
#[derive(Clone, Copy, Debug, PartialEq, Eq)]
pub enum Ending<E> {
    /// The source completes normally.
    Completed,
    /// The source fails with an error.
    Failed(E),
}

/// Emission timestamps never decrease; equal stamps model near-simultaneous
/// arrivals, where the later entry wins any coalescing.
pub open spec fn stamps_ordered<Item>(e: Seq<Stamped<Item>>) -> bool {
    forall|i: int, j: int|
        0 <= i <= j < e.len() ==> (#[trigger] e[i].at) <= (#[trigger] e[j].at)
}

/// A lazy producer, described by the timed script of what it will emit.
#[derive(Clone, Debug, PartialEq, Eq)]
pub struct Observable<Item, E> {
    /// The execution mode of this instance.
    pub mode: ExecMode,
    /// The values it will emit, in timestamp order.
    pub emissions: Vec<Stamped<Item>>,
    /// The timestamp of the terminal signal.
    pub end_at: u64,
    /// Whether it ends in `complete` or in `error`.
    pub ending: Ending<E>,
}

impl<Item, E> Observable<Item, E> {
    /// Timestamps are monotone and the terminal comes last.
    pub open spec fn wf(self) -> bool {
        &&& stamps_ordered(self.emissions@)
        &&& (self.emissions@.len() > 0 ==> self.emissions@.last().at <= self.end_at)
    }

    /// The values of the script, in emission order.
    pub open spec fn values_spec(self) -> Seq<Item> {
        self.emissions@.map_values(|s: Stamped<Item>| s.value)
    }

    /// The terminal signal of the script.
    pub open spec fn terminal_spec(self) -> Signal<Item, E> {
        match self.ending {
            Ending::Completed => Signal::Complete,
            Ending::Failed(err) => Signal::Error(err),
        }
    }

    /// Every signal a subscriber receives: the values, then the terminal.
    pub open spec fn signals_spec(self) -> Seq<Signal<Item, E>> {
        as_next(self.values_spec()) + seq![self.terminal_spec()]
    }

    /// The same script, promoted to the thread-safe execution mode.
    pub open spec fn shared_of(self) -> Observable<Item, E> {
        Observable {
            mode: ExecMode::Shared,
            emissions: self.emissions,
            end_at: self.end_at,
            ending: self.ending,
        }
    }

    /// A single-thread-affine observable over the given script.
    pub fn new(emissions: Vec<Stamped<Item>>, end_at: u64, ending: Ending<E>) -> (r: Observable<
        Item,
        E,
    >)
        requires
            stamps_ordered(emissions@),
            emissions@.len() > 0 ==> emissions@.last().at <= end_at,
        ensures
            r == (Observable { mode: ExecMode::Local, emissions, end_at, ending }),
            r.wf(),
    {
        Observable { mode: ExecMode::Local, emissions, end_at, ending }
    }

    /// Promote to the thread-safe mode. Promotion is one-directional and
    /// idempotent, and never changes what is delivered.
    pub fn to_shared(self) -> (r: Observable<Item, E>)
        ensures
            r == self.shared_of(),
    {
        Observable { mode: ExecMode::Shared, ..self }
    }
}

impl<Item: Copy, E: Copy> Observable<Item, E> {
    /// Materialize the script as the signal sequence a subscriber receives.
    pub fn into_signals(self) -> (out: Vec<Signal<Item, E>>)
        ensures
            out@ == self.signals_spec(),
    {
        let ghost vals = self.values_spec();
        let mut out: Vec<Signal<Item, E>> = Vec::new();
        let n = self.emissions.len();
        let mut i: usize = 0;
        while i < n
            invariant
                i <= n,
                n == self.emissions@.len(),
                vals == self.values_spec(),
                out@ == as_next::<Item, E>(vals.subrange(0, i as int)),
            decreases n - i,
        {
            let st = self.emissions[i];
            out.push(Signal::Next(st.value));
            proof {
                assert(vals[i as int] == st.value);
                crate::signal::lemma_as_next_push::<Item, E>(vals.subrange(0, i as int), st.value);
                assert(vals.subrange(0, i as int + 1) =~= vals.subrange(0, i as int).push(
                    vals[i as int],
                ));
            }
            i = i + 1;
        }
        proof {
            assert(vals.subrange(0, n as int) =~= vals);
        }
        match self.ending {
            Ending::Completed => out.push(Signal::Complete),
            Ending::Failed(err) => out.push(Signal::Error(err)),
        }
        proof {
            assert(out@ =~= self.signals_spec());
        }
        out
    }

    /// Run the script into a subscriber: every value while open, then the
    /// terminal, which closes the subscription.
    pub fn actual_subscribe<O: Observer<Item, E>>(self, subscriber: Subscriber<Item, E, O>) -> (r:
        Subscriber<Item, E, O>)
        requires
            subscriber.wf(),
        ensures
            r.wf(),
            subscriber.closed() ==> r == subscriber,
            !subscriber.closed() ==> r.observer.taken() == subscriber.observer.taken()
                + self.signals_spec() && r.closed(),
    {
        let ghost spec_sigs = self.signals_spec();
        let out = self.into_signals();
        proof {
            assert(all_next_until_last(out@)) by {
                assert(forall|k: int|
                    0 <= k < spec_sigs.len() - 1 ==> spec_sigs[k] == as_next::<Item, E>(
                        self.values_spec(),
                    )[k]);
            }
            assert(out@.len() > 0);
            assert(!(out@.last() is Next));
        }
        let mut s = subscriber;
        s.feed_all(&out);
        s
    }
}

/// Promotion to the thread-safe mode is idempotent: promoting twice is the
/// same script, and the same delivered signals, as promoting once.
pub proof fn lemma_to_shared_idempotent<Item, E>(o: Observable<Item, E>)
    ensures
        o.shared_of().shared_of() == o.shared_of(),
        o.shared_of().signals_spec() == o.signals_spec(),
        o.shared_of().wf() == o.wf(),
{
}

} // verus!
