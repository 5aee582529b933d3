//! The pure-callback subscription convenience: subscribe with a value sink
//! alone. A minimal observer adapter forwards only `next` to the sink and
//! silently discards `error` and `complete`; its error type is fixed to the
//! unit kind — this pathway never surfaces a custom error.

use vstd::prelude::*;
use crate::signal::{Signal, as_next, lemma_as_next_concat, lemma_as_next_injective};
use crate::observer::Observer;
use crate::subscriber::Subscriber;
use crate::observable::Observable;
use crate::debounce::DebounceOp;

verus! {

/// A value sink, taking the place of a `next` callback: it receives each
/// emitted item, in order.
pub trait NextHandler<Item>: Sized {
    /// The values handed to this sink so far.
    spec fn seen(&self) -> Seq<Item>;

    /// Receive one value.
    fn on_next(&mut self, value: Item)
        ensures
            final(self).seen() == old(self).seen().push(value),
    ;
}

/// A sink that stores every value it is handed, in order.
#[derive(Clone, Debug)]
pub struct VecCollector<Item> {
    /// The values received so far.
    pub items: Vec<Item>,
}

impl<Item> VecCollector<Item> {
    /// An empty collector.
    pub fn new() -> (r: VecCollector<Item>)
        ensures
            r.seen() == Seq::<Item>::empty(),
    {
        VecCollector { items: Vec::new() }
    }
}

impl<Item> NextHandler<Item> for VecCollector<Item> {
    open spec fn seen(&self) -> Seq<Item> {
        self.items@
    }

    fn on_next(&mut self, value: Item) {
        self.items.push(value);
    }
}

/// Which terminal signal, if any, the pure observer has discarded.
#[derive(Clone, Copy, Debug, PartialEq, Eq, Structural)]
pub enum PureTerm {
    /// No terminal yet.
    Open,
    /// An `error` arrived and was discarded.
    Failed,
    /// A `complete` arrived and was discarded.
    Done,
}

/// Minimal observer adapter forwarding only `next` to its sink.
#[derive(Clone, Debug)]
pub struct SubscribePure<N> {
    /// The sink receiving the values.
    pub handler: N,
    /// The discarded terminal, if one arrived.
    pub term: PureTerm,
}

impl<N> SubscribePure<N> {
    /// Wrap a sink as a still-running observer.
    pub fn new(handler: N) -> (r: SubscribePure<N>)
        ensures
            r == (SubscribePure { handler, term: PureTerm::Open }),
    {
        SubscribePure { handler, term: PureTerm::Open }
    }

    /// This observer carries no context-affine state, so it is already fit
    /// for the thread-safe mode: promotion returns it unchanged.
    pub fn to_shared(self) -> (r: SubscribePure<N>)
        ensures
            r == self,
    {
        self
    }
}

impl<Item, N: NextHandler<Item>> Observer<Item, ()> for SubscribePure<N> {
    open spec fn taken(&self) -> Seq<Signal<Item, ()>> {
        as_next(self.handler.seen()) + (match self.term {
            PureTerm::Open => Seq::<Signal<Item, ()>>::empty(),
            PureTerm::Failed => seq![Signal::<Item, ()>::Error(())],
            PureTerm::Done => seq![Signal::<Item, ()>::Complete],
        })
    }

    open spec fn stopped(&self) -> bool {
        !(self.term is Open)
    }

    fn next(&mut self, value: Item) {
        let ghost pre = self.handler.seen();
        self.handler.on_next(value);
        proof {
            crate::signal::lemma_as_next_push::<Item, ()>(pre, value);
            assert(self.taken() =~= old(self).taken().push(Signal::<Item, ()>::Next(value)));
        }
    }

    fn error(&mut self, err: ()) {
        self.term = PureTerm::Failed;
        proof {
            assert(err == ());
            assert(self.taken() =~= old(self).taken().push(Signal::<Item, ()>::Error(err)));
        }
    }

    fn complete(&mut self) {
        self.term = PureTerm::Done;
        proof {
            assert(self.taken() =~= old(self).taken().push(Signal::<Item, ()>::Complete));
        }
    }

    fn is_stopped(&self) -> (r: bool) {
        match self.term {
            PureTerm::Open => false,
            PureTerm::Failed => true,
            PureTerm::Done => true,
        }
    }
}

/// From the history a pure observer accepted — some base values, then the
/// values of one run, then one terminal — recover what its sink has seen.
proof fn lemma_pure_seen<Item, N: NextHandler<Item>>(
    sp: SubscribePure<N>,
    base: Seq<Item>,
    vals: Seq<Item>,
    term: Signal<Item, ()>,
)
    requires
        !(term is Next),
        sp.taken() == as_next::<Item, ()>(base) + as_next::<Item, ()>(vals) + seq![term],
    ensures
        sp.handler.seen() == base + vals,
{
    let whole = as_next::<Item, ()>(base) + as_next::<Item, ()>(vals);
    match sp.term {
        PureTerm::Open => {
            assert(sp.taken() == as_next::<Item, ()>(sp.handler.seen()));
            let last = sp.taken().len() - 1;
            assert(sp.taken()[last] == term);
            assert(sp.taken()[last] == Signal::<Item, ()>::Next(sp.handler.seen()[last]));
            assert(false);
        },
        _ => {
            let lhs = as_next::<Item, ()>(sp.handler.seen());
            if sp.term is Failed {
                assert(sp.taken() == lhs + seq![Signal::<Item, ()>::Error(())]);
            } else {
                assert(sp.taken() == lhs + seq![Signal::<Item, ()>::Complete]);
            }
            assert(sp.taken().len() == lhs.len() + 1);
            assert(lhs.len() == whole.len());
            assert forall|i: int| 0 <= i < whole.len() implies lhs[i] == whole[i] by {
                assert(sp.taken()[i] == lhs[i]);
                assert(sp.taken()[i] == (whole + seq![term])[i]);
                assert((whole + seq![term])[i] == whole[i]);
            }
            assert(lhs =~= whole);
            lemma_as_next_concat::<Item, ()>(base, vals);
            lemma_as_next_injective::<Item, ()>(sp.handler.seen(), base + vals);
        },
    }
}

/// Anything that can run a subscription fed by a bare value sink.
pub trait SubscribablePure<Item, N: NextHandler<Item>>: Sized {
    /// The values this source delivers to a subscriber.
    spec fn emitted(self) -> Seq<Item>;

    /// What must hold of this source before it can be subscribed.
    spec fn can_subscribe(self) -> bool;

    /// Invoke an execution of this source and register the sink for its
    /// values: the sink receives exactly `emitted`, in order, and the
    /// terminal signal is discarded, closing the returned subscription.
    fn subscribe(self, next: N) -> (r: Subscriber<Item, (), SubscribePure<N>>)
        requires
            self.can_subscribe(),
        ensures
            r.observer.handler.seen() == next.seen() + self.emitted(),
            r.closed(),
    ;
}

impl<Item: Copy, N: NextHandler<Item>> SubscribablePure<Item, N> for Observable<Item, ()> {
    open spec fn emitted(self) -> Seq<Item> {
        self.values_spec()
    }

    open spec fn can_subscribe(self) -> bool {
        true
    }

    fn subscribe(self, next: N) -> (r: Subscriber<Item, (), SubscribePure<N>>) {
        let ghost base = next.seen();
        let ghost vals = self.values_spec();
        let ghost term = self.terminal_spec();
        let sp = SubscribePure::new(next);
        let sub = Subscriber::new(sp);
        let r = self.actual_subscribe(sub);
        proof {
            assert(r.observer.taken() =~= as_next::<Item, ()>(base) + as_next::<Item, ()>(vals)
                + seq![term]);
            lemma_pure_seen::<Item, N>(r.observer, base, vals, term);
        }
        r
    }
}

impl<Item: Copy, N: NextHandler<Item>> SubscribablePure<Item, N> for DebounceOp<Item, ()> {
    open spec fn emitted(self) -> Seq<Item> {
        self.values_spec()
    }

    open spec fn can_subscribe(self) -> bool {
        self.wf()
    }

    fn subscribe(self, next: N) -> (r: Subscriber<Item, (), SubscribePure<N>>) {
        let ghost base = next.seen();
        let ghost vals = self.values_spec();
        let ghost term = self.source.terminal_spec();
        let sp = SubscribePure::new(next);
        let sub = Subscriber::new(sp);
        let r = self.actual_subscribe(sub);
        proof {
            assert(r.observer.taken() =~= as_next::<Item, ()>(base) + as_next::<Item, ()>(vals)
                + seq![term]);
            lemma_pure_seen::<Item, N>(r.observer, base, vals, term);
        }
        r
    }
}

} // verus!
