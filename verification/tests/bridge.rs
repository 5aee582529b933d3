use rxcore::from_future::{from_future, from_future_with_err, FutureSlot};
use rxcore::observable::ExecMode;
use rxcore::observer::CollectObserver;
use rxcore::signal::Signal;
use rxcore::subscribable_pure::{SubscribablePure, VecCollector};
use rxcore::subscriber::Subscriber;

#[test]
fn smoke() {
    // a computation resolving to success 1: its value arrives as next(1)
    let observable = from_future_with_err(Ok::<i32, i32>(1), 0);
    let sub = observable.actual_subscribe(Subscriber::new(CollectObserver::new()));
    assert_eq!(sub.observer.signals, vec![Signal::Next(1), Signal::Complete]);
    // a computation resolving to the plain value 2
    let observable = from_future(2, 0);
    let sub = observable.subscribe(VecCollector::new());
    assert_eq!(&sub.observer.handler.items, &[2]);
}

#[test]
fn from_future_emits_value_then_completes() {
    let observable = from_future(1, 5);
    assert_eq!(observable.mode, ExecMode::Shared);
    let out = observable.into_signals();
    assert_eq!(out, vec![Signal::Next(1), Signal::Complete]);
}

#[test]
fn from_future_failure_result_is_a_plain_value() {
    // the computation's own failure encoding is still an ordinary value here
    let observable = from_future(Err::<i32, i32>(3), 0);
    let out = observable.into_signals();
    assert_eq!(out, vec![Signal::Next(Err(3)), Signal::Complete]);
}

#[test]
fn from_future_with_err_failure_is_terminal_error() {
    let observable = from_future_with_err(Err::<i32, i32>(7), 0);
    assert_eq!(observable.mode, ExecMode::Shared);
    let out = observable.into_signals();
    assert_eq!(out, vec![Signal::Error(7)]);
}

#[test]
fn resolve_emits_once_then_releases() {
    let slot = FutureSlot::new(Subscriber::new(CollectObserver::<i32, ()>::new()));
    let sub = slot.resolve(1);
    assert_eq!(sub.observer.signals, vec![Signal::Next(1), Signal::Complete]);
    assert!(sub.subscription.closed);
}

#[test]
fn resolve_result_failure_skips_complete() {
    let slot = FutureSlot::new(Subscriber::new(CollectObserver::<i32, i32>::new()));
    let sub = slot.resolve_result(Err(9));
    assert_eq!(sub.observer.signals, vec![Signal::Error(9)]);
}

#[test]
fn early_unsubscribe_discards_resolution() {
    let mut subscriber = Subscriber::new(CollectObserver::<i32, ()>::new());
    subscriber.unsubscribe();
    let slot = FutureSlot::new(subscriber);
    let sub = slot.resolve(5);
    assert_eq!(sub.observer.signals, Vec::<Signal<i32, ()>>::new());
    assert!(sub.subscription.closed);
}
