//! The debounce operator: re-emit only the most recent upstream value after a
//! quiet period of `duration` with no further upstream activity; flush any
//! pending value immediately on completion; forward errors immediately and
//! uncoalesced. A superseded timer is never cancelled — each callback carries
//! the arrival timestamp of the value that armed it as its token, and checks
//! on fire whether that token still matches the latest arrival; a stale
//! callback is a no-op. Timestamp staleness is a pure value comparison, so
//! the same state machine serves both execution modes.

use vstd::prelude::*;
use crate::signal::{Signal, as_next, lemma_as_next_push};
use crate::observable::{Observable, Stamped, Ending, stamps_ordered};
use crate::observer::Observer;
use crate::subscriber::{Subscriber, all_next_until_last};
use crate::scheduler::{LocalScheduler, ScheduledTask, sorted_by_due};

verus! {

/// Coalescing state shared by the upstream handler and the scheduled
/// callback: the latched trailing value, if one arrived since the last flush,
/// and the arrival time of the most recent upstream value.
#[derive(Clone, Copy, Debug, PartialEq, Eq)]
pub struct DebounceState<Item> {
    /// The value awaiting emission, present iff one arrived since the last
    /// flush and has not been emitted or superseded.
    pub trailing_value: Option<Item>,
    /// Arrival time of the most recent upstream value; the only token a
    /// firing callback may still act on.
    pub last_updated: Option<u64>,
}

impl<Item: Copy> DebounceState<Item> {
    /// The state before any upstream activity.
    pub fn new() -> (r: DebounceState<Item>)
        ensures
            r == (DebounceState::<Item> { trailing_value: None, last_updated: None }),
    {
        DebounceState { trailing_value: None, last_updated: None }
    }

    /// Upstream `next` at instant `now`: latch the value — a previously
    /// latched one is superseded, last write wins — and remember the arrival
    /// time. The caller then schedules a callback after the quiet period,
    /// carrying `now` as its token.
    pub fn on_next(&mut self, value: Item, now: u64)
        ensures
            *final(self) == (DebounceState::<Item> {
                trailing_value: Some(value),
                last_updated: Some(now),
            }),
    {
        self.trailing_value = Some(value);
        self.last_updated = Some(now);
    }

    /// A scheduled callback fires with its token: if the token still matches
    /// the latest arrival and a value is latched, emit it and clear it;
    /// otherwise the callback is stale or superseded — expected control flow,
    /// not an error — and nothing happens.
    pub fn on_timer(&mut self, token: u64) -> (fired: Option<Item>)
        ensures
            final(self).last_updated == old(self).last_updated,
            (old(self).last_updated == Some(token) && old(self).trailing_value is Some) ==> (fired
                == old(self).trailing_value && final(self).trailing_value is None),
            !(old(self).last_updated == Some(token) && old(self).trailing_value is Some) ==> (fired
                is None && *final(self) == *old(self)),
    {
        let fresh = match self.last_updated {
            Some(t0) => t0 == token,
            None => false,
        };
        if fresh && self.trailing_value.is_some() {
            let fired = self.trailing_value;
            self.trailing_value = None;
            fired
        } else {
            None
        }
    }

    /// Upstream completes: hand back any pending value so it is emitted
    /// immediately, before the completion is forwarded.
    pub fn on_complete(&mut self) -> (fired: Option<Item>)
        ensures
            fired == old(self).trailing_value,
            final(self).trailing_value is None,
            final(self).last_updated == old(self).last_updated,
    {
        let fired = self.trailing_value;
        self.trailing_value = None;
        fired
    }
}

/// The values among the first `k` upstream emissions that the quiet period
/// lets through: emission `j < k` survives iff the next emission arrives no
/// sooner than `d` after it. (The final emission of a script is judged
/// against the terminal instead; see `debounced_values`.)
pub open spec fn kept_values<Item>(e: Seq<Stamped<Item>>, d: u64, k: int) -> Seq<Item>
    decreases k,
{
    if k <= 0 {
        Seq::<Item>::empty()
    } else {
        kept_values(e, d, k - 1) + (if e[k - 1].at + d <= e[k].at {
            seq![e[k - 1].value]
        } else {
            Seq::<Item>::empty()
        })
    }
}

/// Every value the debounce operator emits for a source script: each
/// non-final value survives iff it is followed by a gap of at least `d`; the
/// final value always survives a completion (flushed immediately if its quiet
/// period has not elapsed), and survives an error only if its timer was
/// already due at the error's instant — an error discards a pending value.
pub open spec fn debounced_values<Item>(
    e: Seq<Stamped<Item>>,
    d: u64,
    end_at: u64,
    failed: bool,
) -> Seq<Item> {
    if e.len() == 0 {
        Seq::<Item>::empty()
    } else {
        kept_values(e, d, e.len() - 1) + (if !failed || e.last().at + d <= end_at {
            seq![e.last().value]
        } else {
            Seq::<Item>::empty()
        })
    }
}

/// The debounce operator: a source, the scheduler its callbacks run on, and
/// the quiet period.
#[derive(Clone, Debug, PartialEq, Eq)]
pub struct DebounceOp<Item, E> {
    /// The upstream observable.
    pub source: Observable<Item, E>,
    /// Runs the flush callbacks; nothing of this instance is pending on it.
    pub scheduler: LocalScheduler,
    /// The quiet period.
    pub duration: u64,
}

impl<Item, E> Observable<Item, E> {
    /// Debounce this observable: re-emit only the latest value after a quiet
    /// period of `duration`, measured on `scheduler`'s clock.
    pub fn debounce(self, duration: u64, scheduler: LocalScheduler) -> (r: DebounceOp<Item, E>)
        ensures
            r == (DebounceOp { source: self, scheduler, duration }),
    {
        DebounceOp { source: self, scheduler, duration }
    }
}

impl<Item, E> DebounceOp<Item, E> {
    /// The source script is well formed, the scheduler starts idle, and no
    /// timer instant can overflow the clock.
    pub open spec fn wf(self) -> bool {
        &&& self.source.wf()
        &&& self.scheduler.pending@.len() == 0
        &&& self.source.end_at + self.duration <= u64::MAX
    }

    /// Whether the source ends in an error.
    pub open spec fn failed(self) -> bool {
        self.source.ending is Failed
    }

    /// The values this operator emits.
    pub open spec fn values_spec(self) -> Seq<Item> {
        debounced_values(self.source.emissions@, self.duration, self.source.end_at, self.failed())
    }

    /// Every signal a subscriber receives: the surviving values, then the
    /// source's terminal, forwarded unchanged.
    pub open spec fn signals_spec(self) -> Seq<Signal<Item, E>> {
        as_next(self.values_spec()) + seq![self.source.terminal_spec()]
    }

    /// The same operator with its source promoted to the thread-safe mode.
    pub open spec fn shared_of(self) -> DebounceOp<Item, E> {
        DebounceOp {
            source: self.source.shared_of(),
            scheduler: self.scheduler,
            duration: self.duration,
        }
    }

    /// Promote to the thread-safe mode; idempotent, and the emitted signals
    /// are unchanged.
    pub fn to_shared(self) -> (r: DebounceOp<Item, E>)
        ensures
            r == self.shared_of(),
    {
        let DebounceOp { source, scheduler, duration } = self;
        DebounceOp { source: source.to_shared(), scheduler, duration }
    }
}

/// Dispatch a batch of due callbacks into the debounce state: the one whose
/// token still matches the latest arrival flushes the latched value; every
/// stale callback is a no-op.
fn flush_due<Item: Copy, E>(
    st: &mut DebounceState<Item>,
    batch: &Vec<ScheduledTask>,
    out: &mut Vec<Signal<Item, E>>,
)
    requires
        old(st).last_updated is None ==> batch@.len() == 0,
        forall|k: int|
            0 <= k < batch@.len() ==> (#[trigger] batch@[k]).token <= old(
                st,
            ).last_updated->Some_0,
    ensures
        final(st).last_updated == old(st).last_updated,
        ({
            let hit = old(st).trailing_value is Some && (exists|k: int|
                0 <= k < batch@.len() && (#[trigger] batch@[k]).token == old(
                    st,
                ).last_updated->Some_0);
            if hit {
                final(st).trailing_value is None && final(out)@ == old(out)@.push(
                    Signal::<Item, E>::Next(old(st).trailing_value->Some_0),
                )
            } else {
                *final(st) == *old(st) && final(out)@ == old(out)@
            }
        }),
{
    let ghost pre_st = *st;
    let ghost pre_out = out@;
    let m = batch.len();
    let mut k: usize = 0;
    while k < m
        invariant
            k <= m,
            m == batch@.len(),
            pre_st.last_updated is None ==> m == 0,
            forall|j: int|
                0 <= j < m ==> (#[trigger] batch@[j]).token <= pre_st.last_updated->Some_0,
            st.last_updated == pre_st.last_updated,
            ({
                let hit = pre_st.trailing_value is Some && (exists|j: int|
                    0 <= j < k && (#[trigger] batch@[j]).token == pre_st.last_updated->Some_0);
                if hit {
                    st.trailing_value is None && out@ == pre_out.push(
                        Signal::<Item, E>::Next(pre_st.trailing_value->Some_0),
                    )
                } else {
                    *st == pre_st && out@ == pre_out
                }
            }),
        decreases m - k,
    {
        let task = batch[k];
        match st.on_timer(task.token) {
            Some(v) => out.push(Signal::Next(v)),
            None => {},
        }
        k = k + 1;
    }
}

impl<Item: Copy, E: Copy> DebounceOp<Item, E> {
    /// Replay the source script through the debounce state machine, every
    /// scheduled callback dispatched at its due instant, before any
    /// equal-or-later-stamped upstream activity. The result is exactly the
    /// debounced signal sequence.
    pub fn into_signals(self) -> (out: Vec<Signal<Item, E>>)
        requires
            self.wf(),
        ensures
            out@ == self.signals_spec(),
    {
        let ghost op = self;
        let DebounceOp { source, scheduler, duration } = self;
        let mut scheduler = scheduler;
        let ghost e = source.emissions@;
        let ghost d = duration;
        let mut st = DebounceState::<Item>::new();
        let mut out: Vec<Signal<Item, E>> = Vec::new();
        let n = source.emissions.len();
        let mut i: usize = 0;
        while i < n
            invariant
                i <= n,
                n == e.len(),
                e == source.emissions@,
                d == duration,
                stamps_ordered(e),
                n > 0 ==> e.last().at <= source.end_at,
                source.end_at + d <= u64::MAX,
                i == 0 ==> st == (DebounceState::<Item> {
                    trailing_value: None,
                    last_updated: None,
                }),
                i > 0 ==> st == (DebounceState::<Item> {
                    trailing_value: Some(e[i - 1].value),
                    last_updated: Some(e[i - 1].at),
                }),
                i == 0 ==> out@ == Seq::<Signal<Item, E>>::empty(),
                i > 0 ==> out@ == as_next::<Item, E>(kept_values(e, d, i - 1)),
                sorted_by_due(scheduler.pending@),
                forall|k: int|
                    0 <= k < scheduler.pending@.len() ==> (#[trigger] scheduler.pending@[k]).due
                        == scheduler.pending@[k].token + d,
                i == 0 ==> scheduler.pending@.len() == 0,
                i > 0 ==> scheduler.pending@.len() > 0 && scheduler.pending@.last().token == e[i
                    - 1].at,
                i > 0 ==> forall|k: int|
                    0 <= k < scheduler.pending@.len() ==> (#[trigger] scheduler.pending@[k]).token
                        <= e[i - 1].at,
            decreases n - i,
        {
            let ghost pre_pending = scheduler.pending@;
            let now = source.emissions[i].at;
            let batch = scheduler.drain_due(now);
            proof {
                assert(batch@ == pre_pending.subrange(0, batch@.len() as int));
                if i > 0 {
                    assert forall|k: int|
                        0 <= k < batch@.len() implies (#[trigger] batch@[k]).token <= e[i
                        - 1].at by {
                        assert(batch@[k] == pre_pending[k]);
                        assert(pre_pending[k].token <= e[i - 1].at);
                    }
                    // the newest callback is in the batch exactly when its
                    // quiet period has elapsed before this arrival
                    if e[i - 1].at + d <= now {
                        let last = pre_pending.len() - 1;
                        assert(pre_pending[last].token == e[i - 1].at);
                        assert(pre_pending[last].due == pre_pending[last].token + d);
                        if scheduler.pending@.len() > 0 {
                            let m = scheduler.pending@.len();
                            assert(scheduler.pending@[m - 1] == pre_pending.subrange(
                                batch@.len() as int,
                                pre_pending.len() as int,
                            )[m - 1]);
                            assert(scheduler.pending@[m - 1] == pre_pending[last]);
                            assert(scheduler.pending@[m - 1].due > now);
                            assert(false);
                        }
                        assert(batch@ =~= pre_pending);
                        assert(batch@[batch@.len() - 1].token == e[i - 1].at);
                    } else {
                        assert forall|k: int|
                            0 <= k < batch@.len() implies (#[trigger] batch@[k]).token != e[i
                            - 1].at by {
                            assert(batch@[k] == pre_pending[k]);
                            assert(pre_pending[k].due == pre_pending[k].token + d);
                            assert(batch@[k].due <= now);
                        }
                    }
                } else {
                    assert(batch@.len() == 0);
                }
            }
            flush_due(&mut st, &batch, &mut out);
            proof {
                if i > 0 {
                    assert(kept_values(e, d, i as int) == kept_values(e, d, i - 1) + (if e[i
                        - 1].at + d <= e[i as int].at {
                        seq![e[i - 1].value]
                    } else {
                        Seq::<Item>::empty()
                    }));
                    if e[i - 1].at + d <= now {
                        lemma_as_next_push::<Item, E>(kept_values(e, d, i - 1), e[i - 1].value);
                        assert(kept_values(e, d, i - 1).push(e[i - 1].value) =~= kept_values(
                            e,
                            d,
                            i - 1,
                        ) + seq![e[i - 1].value]);
                    } else {
                        assert(kept_values(e, d, i as int) =~= kept_values(e, d, i - 1));
                    }
                    assert(out@ == as_next::<Item, E>(kept_values(e, d, i as int)));
                } else {
                    assert(kept_values(e, d, 0) == Seq::<Item>::empty());
                    assert(out@ =~= as_next::<Item, E>(kept_values(e, d, 0)));
                }
            }
            let value = source.emissions[i].value;
            st.on_next(value, now);
            proof {
                assert(e[i as int].at <= e[n - 1].at);
                assert(now + d <= u64::MAX);
            }
            scheduler.schedule(now, Some(duration), now);
            proof {
                let post = scheduler.pending@;
                assert(post.last().token == now);
                assert forall|k1: int, k2: int| 0 <= k1 <= k2 < post.len() implies (
                #[trigger] post[k1].due) <= (#[trigger] post[k2].due) by {
                    if k2 == post.len() - 1 && k1 < k2 {
                        assert(post[k1].due == post[k1].token + d);
                        assert(post[k1].token <= e[i - 1].at);
                    }
                }
            }
            i = i + 1;
        }
        // upstream is over: run the callbacks still due before the terminal
        let ghost pre_pending = scheduler.pending@;
        let batch = scheduler.drain_due(source.end_at);
        proof {
            assert(batch@ == pre_pending.subrange(0, batch@.len() as int));
            if n > 0 {
                assert forall|k: int|
                    0 <= k < batch@.len() implies (#[trigger] batch@[k]).token <= e[n - 1].at by {
                    assert(batch@[k] == pre_pending[k]);
                    assert(pre_pending[k].token <= e[n - 1].at);
                }
                if e[n - 1].at + d <= source.end_at {
                    let last = pre_pending.len() - 1;
                    assert(pre_pending[last].token == e[n - 1].at);
                    assert(pre_pending[last].due == pre_pending[last].token + d);
                    if scheduler.pending@.len() > 0 {
                        let m = scheduler.pending@.len();
                        assert(scheduler.pending@[m - 1] == pre_pending.subrange(
                            batch@.len() as int,
                            pre_pending.len() as int,
                        )[m - 1]);
                        assert(scheduler.pending@[m - 1] == pre_pending[last]);
                        assert(scheduler.pending@[m - 1].due > source.end_at);
                        assert(false);
                    }
                    assert(batch@ =~= pre_pending);
                    assert(batch@[batch@.len() - 1].token == e[n - 1].at);
                } else {
                    assert forall|k: int|
                        0 <= k < batch@.len() implies (#[trigger] batch@[k]).token != e[n
                        - 1].at by {
                        assert(batch@[k] == pre_pending[k]);
                        assert(pre_pending[k].due == pre_pending[k].token + d);
                        assert(batch@[k].due <= source.end_at);
                    }
                }
            } else {
                assert(batch@.len() == 0);
            }
        }
        flush_due(&mut st, &batch, &mut out);
        match source.ending {
            Ending::Completed => {
                match st.on_complete() {
                    Some(v) => out.push(Signal::Next(v)),
                    None => {},
                }
                out.push(Signal::Complete);
            },
            Ending::Failed(err) => {
                out.push(Signal::Error(err));
            },
        }
        proof {
            if n == 0 {
                assert(op.values_spec() =~= Seq::<Item>::empty());
                assert(out@ =~= op.signals_spec());
            } else {
                let fired = e[n - 1].at + d <= source.end_at;
                if !op.failed() || fired {
                    assert(op.values_spec() =~= kept_values(e, d, n - 1).push(e[n - 1].value));
                    lemma_as_next_push::<Item, E>(kept_values(e, d, n - 1), e[n - 1].value);
                } else {
                    assert(op.values_spec() =~= kept_values(e, d, n - 1));
                }
                assert(out@ =~= op.signals_spec());
            }
        }
        out
    }

    /// Subscribe an observer through the debounce operator: while open it
    /// receives exactly the surviving values, then the forwarded terminal,
    /// which closes the subscription.
    pub fn actual_subscribe<O: Observer<Item, E>>(self, subscriber: Subscriber<Item, E, O>) -> (r:
        Subscriber<Item, E, O>)
        requires
            self.wf(),
            subscriber.wf(),
        ensures
            r.wf(),
            subscriber.closed() ==> r == subscriber,
            !subscriber.closed() ==> r.observer.taken() == subscriber.observer.taken()
                + self.signals_spec() && r.closed(),
    {
        let ghost spec_sigs = self.signals_spec();
        let ghost vals = self.values_spec();
        let out = self.into_signals();
        proof {
            assert(forall|k: int|
                0 <= k < spec_sigs.len() - 1 ==> spec_sigs[k] == as_next::<Item, E>(vals)[k]);
            assert(all_next_until_last(out@));
            assert(out@.len() > 0);
            assert(!(out@.last() is Next));
        }
        let mut s = subscriber;
        s.feed_all(&out);
        s
    }
}

/// Both execution modes of the operator behave identically: promoting the
/// source to the thread-safe mode changes no delivered signal, and promoting
/// twice is the same operator as promoting once.
pub proof fn lemma_shared_debounce_same_signals<Item, E>(op: DebounceOp<Item, E>)
    ensures
        op.shared_of().signals_spec() == op.signals_spec(),
        op.shared_of().wf() == op.wf(),
        op.shared_of().shared_of() == op.shared_of(),
{
}

/// In a prefix where every gap is shorter than the quiet period, no value
/// survives: each one is superseded before its timer may fire.
proof fn lemma_kept_values_bursty<Item>(e: Seq<Stamped<Item>>, d: u64, k: int)
    requires
        0 <= k < e.len(),
        forall|j: int| 0 <= j < k ==> (#[trigger] e[j].at) + d > e[j + 1].at,
    ensures
        kept_values(e, d, k) == Seq::<Item>::empty(),
    decreases k,
{
    if k <= 0 {
        assert(kept_values(e, d, k) =~= Seq::<Item>::empty());
    } else {
        lemma_kept_values_bursty(e, d, k - 1);
        assert(e[k - 1].at + d > e[k].at);
        assert(kept_values(e, d, k) =~= Seq::<Item>::empty());
    }
}

/// In a prefix where every gap is at least the quiet period, every value
/// survives, in order.
proof fn lemma_kept_values_quiet<Item>(e: Seq<Stamped<Item>>, d: u64, k: int)
    requires
        0 <= k < e.len(),
        forall|j: int| 0 <= j < k ==> (#[trigger] e[j].at) + d <= e[j + 1].at,
    ensures
        kept_values(e, d, k).len() == k,
        forall|j: int| 0 <= j < k ==> kept_values(e, d, k)[j] == e[j].value,
    decreases k,
{
    if k <= 0 {
    } else {
        lemma_kept_values_quiet(e, d, k - 1);
        assert(e[k - 1].at + d <= e[k].at);
        assert(kept_values(e, d, k) == kept_values(e, d, k - 1) + seq![e[k - 1].value]);
        assert forall|j: int| 0 <= j < k implies kept_values(e, d, k)[j] == e[j].value by {
            if j < k - 1 {
                assert(kept_values(e, d, k)[j] == kept_values(e, d, k - 1)[j]);
            } else {
                assert(kept_values(e, d, k)[j] == e[k - 1].value);
            }
        }
    }
}

/// Survivors of a prefix and of the remainder compose: judging the first
/// `k` emissions equals judging the first `m`, then the rest of the script
/// from `m` on.
proof fn lemma_kept_values_split<Item>(e: Seq<Stamped<Item>>, d: u64, m: int, k: int)
    requires
        0 <= m <= k < e.len(),
    ensures
        kept_values(e, d, k) == kept_values(e, d, m) + kept_values(
            e.subrange(m, e.len() as int),
            d,
            k - m,
        ),
    decreases k - m,
{
    let suf = e.subrange(m, e.len() as int);
    if k == m {
        assert(kept_values(suf, d, 0) == Seq::<Item>::empty());
        assert(kept_values(e, d, k) =~= kept_values(e, d, m) + kept_values(suf, d, 0));
    } else {
        lemma_kept_values_split(e, d, m, k - 1);
        assert(suf[k - 1 - m] == e[k - 1]);
        assert(suf[k - m] == e[k]);
        assert(kept_values(suf, d, k - m) == kept_values(suf, d, k - m - 1) + (if suf[k - m
            - 1].at + d <= suf[k - m].at {
            seq![suf[k - m - 1].value]
        } else {
            Seq::<Item>::empty()
        }));
        assert(kept_values(e, d, k) =~= kept_values(e, d, m) + kept_values(suf, d, k - m));
    }
}

/// Of a leading burst faster than the quiet period, ended by a quiet gap,
/// only its last value survives, in place: the output is that value followed
/// by the debounced remainder of the script. Applied burst by burst, this
/// gives the survivor of each burst, in burst order.
pub proof fn lemma_first_burst_collapses<Item>(
    e: Seq<Stamped<Item>>,
    d: u64,
    end_at: u64,
    failed: bool,
    m: int,
)
    requires
        0 <= m < e.len() - 1,
        forall|j: int| 0 <= j < m ==> (#[trigger] e[j].at) + d > e[j + 1].at,
        e[m].at + d <= e[m + 1].at,
    ensures
        debounced_values(e, d, end_at, failed) == seq![e[m].value] + debounced_values(
            e.subrange(m + 1, e.len() as int),
            d,
            end_at,
            failed,
        ),
{
    let len = e.len() as int;
    let suf = e.subrange(m + 1, len);
    lemma_kept_values_split(e, d, m + 1, len - 1);
    lemma_kept_values_bursty(e, d, m);
    assert(kept_values(e, d, m + 1) =~= seq![e[m].value]);
    assert(suf.len() == len - m - 1);
    assert(suf[suf.len() - 1] == e[len - 1]);
    assert(suf.last() == e.last());
    assert(debounced_values(e, d, end_at, failed) =~= seq![e[m].value] + debounced_values(
        suf,
        d,
        end_at,
        failed,
    ));
}

/// A whole burst faster than the quiet period collapses to its last value:
/// if every gap is shorter than `d`, a completed source delivers exactly the
/// final value.
pub proof fn lemma_burst_keeps_only_last<Item>(e: Seq<Stamped<Item>>, d: u64, end_at: u64)
    requires
        e.len() > 0,
        forall|j: int| 0 <= j < e.len() - 1 ==> (#[trigger] e[j].at) + d > e[j + 1].at,
    ensures
        debounced_values(e, d, end_at, false) == seq![e.last().value],
{
    lemma_kept_values_bursty(e, d, e.len() - 1);
    assert(debounced_values(e, d, end_at, false) =~= seq![e.last().value]);
}

/// A source whose every gap reaches the quiet period passes through
/// unchanged: each value survives, in emission order.
pub proof fn lemma_quiet_keeps_every_value<Item>(e: Seq<Stamped<Item>>, d: u64, end_at: u64)
    requires
        e.len() > 0,
        forall|j: int| 0 <= j < e.len() - 1 ==> (#[trigger] e[j].at) + d <= e[j + 1].at,
    ensures
        debounced_values(e, d, end_at, false).len() == e.len(),
        forall|j: int|
            0 <= j < e.len() ==> debounced_values(e, d, end_at, false)[j] == e[j].value,
{
    lemma_kept_values_quiet(e, d, e.len() - 1);
    let kept = kept_values(e, d, e.len() - 1);
    assert(debounced_values(e, d, end_at, false) == kept + seq![e.last().value]);
    assert forall|j: int|
        0 <= j < e.len() implies debounced_values(e, d, end_at, false)[j] == e[j].value by {
        if j < e.len() - 1 {
            assert(debounced_values(e, d, end_at, false)[j] == kept[j]);
        } else {
            assert(debounced_values(e, d, end_at, false)[j] == e[e.len() - 1].value);
        }
    }
}

/// A final value that precedes `complete` by less than the quiet period is
/// still emitted, immediately before the completion.
pub proof fn lemma_trailing_flushed_before_complete<Item, E>(op: DebounceOp<Item, E>)
    requires
        op.source.emissions@.len() > 0,
        !op.failed(),
        op.source.end_at < op.source.emissions@.last().at + op.duration,
    ensures
        op.signals_spec().len() >= 2,
        op.signals_spec()[op.signals_spec().len() - 2] == Signal::<Item, E>::Next(
            op.source.emissions@.last().value,
        ),
        op.signals_spec().last() == Signal::<Item, E>::Complete,
{
    let e = op.source.emissions@;
    let vals = op.values_spec();
    assert(vals == kept_values(e, op.duration, e.len() - 1) + seq![e.last().value]);
    assert(vals.len() >= 1 && vals.last() == e.last().value);
    assert(op.signals_spec()[op.signals_spec().len() - 2] == as_next::<Item, E>(vals)[vals.len()
        - 1]);
    assert(as_next::<Item, E>(vals)[vals.len() - 1] == Signal::<Item, E>::Next(vals[vals.len()
        - 1]));
}

/// An upstream error is forwarded with no delay: it is the final signal,
/// nothing but surviving values precede it, and a value still inside its
/// quiet period is discarded rather than emitted.
pub proof fn lemma_error_forwarded_discards_pending<Item, E>(op: DebounceOp<Item, E>, err: E)
    requires
        op.source.ending == Ending::<E>::Failed(err),
        op.source.emissions@.len() > 0,
        op.source.end_at < op.source.emissions@.last().at + op.duration,
    ensures
        op.signals_spec().last() == Signal::<Item, E>::Error(err),
        op.values_spec() == kept_values(op.source.emissions@, op.duration, op.source.emissions@.len()
            - 1),
        forall|j: int| 0 <= j < op.signals_spec().len() - 1 ==> op.signals_spec()[j] is Next,
{
    let e = op.source.emissions@;
    let vals = op.values_spec();
    assert(vals =~= kept_values(e, op.duration, e.len() - 1));
    assert forall|j: int| 0 <= j < op.signals_spec().len() - 1 implies op.signals_spec()[j]
        is Next by {
        assert(op.signals_spec()[j] == as_next::<Item, E>(vals)[j]);
        assert(as_next::<Item, E>(vals)[j] == Signal::<Item, E>::Next(vals[j]));
    }
}

} // verus!
