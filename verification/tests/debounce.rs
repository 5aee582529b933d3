use rxcore::debounce::{DebounceOp, DebounceState};
use rxcore::observable::{Ending, ExecMode, Observable, Stamped};
use rxcore::scheduler::LocalScheduler;
use rxcore::signal::Signal;
use rxcore::subscribable_pure::{SubscribablePure, VecCollector};

fn interval_source(period: u64, count: u64) -> Observable<u64, ()> {
    let mut emissions: Vec<Stamped<u64>> = Vec::new();
    let mut i: u64 = 0;
    while i < count {
        emissions.push(Stamped { at: (i + 1) * period, value: i });
        i += 1;
    }
    Observable::new(emissions, count * period, Ending::Completed)
}

#[test]
fn smoke_last() {
    // ten values spaced 2 apart, quiet period 3: every value is superseded
    // before its timer fires, and only the last survives, at completion
    let debounced = interval_source(2, 10).debounce(3, LocalScheduler::new());
    let sub = debounced.subscribe(VecCollector::new());
    assert_eq!(&sub.observer.handler.items, &[9]);
}

#[test]
fn smoke_every() {
    // ten values spaced 3 apart, quiet period 2: every gap reaches the quiet
    // period, so every value survives, in order
    let debounced = interval_source(3, 10).debounce(2, LocalScheduler::new());
    let sub = debounced.subscribe(VecCollector::new());
    assert_eq!(&sub.observer.handler.items, &[0, 1, 2, 3, 4, 5, 6, 7, 8, 9]);
}

#[test]
fn fork_and_shared() {
    // a synchronous burst of ten values, debounced, promoted twice
    let mut emissions: Vec<Stamped<u64>> = Vec::new();
    for i in 0..10u64 {
        emissions.push(Stamped { at: 0, value: i });
    }
    let source = Observable::<u64, ()>::new(emissions, 0, Ending::Completed);
    source
        .debounce(1, LocalScheduler::new())
        .to_shared()
        .to_shared()
        .subscribe(VecCollector::new());
}

#[test]
fn synchronous_burst_keeps_last_write() {
    // equal timestamps: the last write wins the coalescing
    let mut emissions: Vec<Stamped<i32>> = Vec::new();
    for v in [4, 8, 15] {
        emissions.push(Stamped { at: 5, value: v });
    }
    let source = Observable::<i32, ()>::new(emissions, 5, Ending::Completed);
    let out = source.debounce(3, LocalScheduler::new()).into_signals();
    assert_eq!(out, vec![Signal::Next(15), Signal::Complete]);
}

#[test]
fn trailing_value_flushed_at_complete() {
    // the final value precedes complete() within the quiet period and is
    // still emitted, immediately before the completion
    let mut emissions: Vec<Stamped<i32>> = Vec::new();
    emissions.push(Stamped { at: 0, value: 1 });
    emissions.push(Stamped { at: 10, value: 2 });
    let source = Observable::<i32, ()>::new(emissions, 11, Ending::Completed);
    let out = source.debounce(4, LocalScheduler::new()).into_signals();
    assert_eq!(
        out,
        vec![Signal::Next(1), Signal::Next(2), Signal::Complete]
    );
}

#[test]
fn error_discards_pending_value() {
    // the error arrives before the last timer is due: the pending value is
    // discarded and the error is forwarded as the only terminal
    let mut emissions: Vec<Stamped<i32>> = Vec::new();
    emissions.push(Stamped { at: 0, value: 1 });
    emissions.push(Stamped { at: 10, value: 2 });
    let source = Observable::<i32, i32>::new(emissions, 11, Ending::Failed(7));
    let out = source.debounce(4, LocalScheduler::new()).into_signals();
    assert_eq!(out, vec![Signal::Next(1), Signal::Error(7)]);
}

#[test]
fn error_after_quiet_period_keeps_flushed_value() {
    // the timer fired before the error: the value was already emitted
    let mut emissions: Vec<Stamped<i32>> = Vec::new();
    emissions.push(Stamped { at: 0, value: 1 });
    let source = Observable::<i32, i32>::new(emissions, 9, Ending::Failed(7));
    let out = source.debounce(4, LocalScheduler::new()).into_signals();
    assert_eq!(out, vec![Signal::Next(1), Signal::Error(7)]);
}

#[test]
fn empty_source_only_completes() {
    let source = Observable::<i32, ()>::new(Vec::new(), 3, Ending::Completed);
    let out = source.debounce(2, LocalScheduler::new()).into_signals();
    assert_eq!(out, vec![Signal::Complete]);
}

#[test]
fn stale_timer_is_a_no_op() {
    let mut st: DebounceState<i32> = DebounceState::new();
    st.on_next(1, 10);
    st.on_next(2, 12);
    // the callback armed at 10 fires stale: its token no longer matches
    assert_eq!(st.on_timer(10), None);
    assert_eq!(st.trailing_value, Some(2));
    // the callback armed at 12 flushes the latest value
    assert_eq!(st.on_timer(12), Some(2));
    assert_eq!(st.trailing_value, None);
    // a second fire with the same token finds nothing latched
    assert_eq!(st.on_timer(12), None);
}

#[test]
fn complete_flushes_latched_value() {
    let mut st: DebounceState<i32> = DebounceState::new();
    st.on_next(5, 3);
    assert_eq!(st.on_complete(), Some(5));
    assert_eq!(st.on_complete(), None);
}

#[test]
fn debounce_op_to_shared_promotes_source() {
    let source = Observable::<i32, ()>::new(Vec::new(), 0, Ending::Completed);
    let op = source.debounce(1, LocalScheduler::new());
    let shared = op.clone().to_shared();
    assert_eq!(shared.source.mode, ExecMode::Shared);
    assert_eq!(shared.clone().to_shared(), shared);
    let direct: DebounceOp<i32, ()> = op.to_shared();
    assert_eq!(direct, shared);
}
