use rxcore::observable::{Ending, ExecMode, Observable, Stamped};
use rxcore::observer::{CollectObserver, Observer};
use rxcore::scheduler::{LocalScheduler, ScheduledTask};
use rxcore::signal::Signal;
use rxcore::subscribable_pure::{NextHandler, SubscribePure, SubscribablePure, VecCollector};
use rxcore::subscriber::Subscriber;
use rxcore::subscription::Subscription;

#[test]
fn unsubscribe_is_idempotent() {
    let mut s = Subscription::new();
    assert!(!s.is_closed());
    s.unsubscribe();
    assert!(s.is_closed());
    s.unsubscribe();
    assert!(s.is_closed());
}

#[test]
fn subscriber_drops_signals_after_close() {
    let mut sub = Subscriber::new(CollectObserver::<i32, ()>::new());
    sub.next(1);
    sub.unsubscribe();
    sub.next(2);
    sub.complete();
    assert_eq!(sub.observer.signals, vec![Signal::Next(1)]);
}

#[test]
fn terminal_signal_closes_subscription() {
    let mut sub = Subscriber::new(CollectObserver::<i32, ()>::new());
    sub.next(1);
    sub.complete();
    assert!(sub.is_closed());
    // at most one terminal: everything after the first is dropped
    sub.next(3);
    sub.complete();
    assert_eq!(sub.observer.signals, vec![Signal::Next(1), Signal::Complete]);
}

#[test]
fn to_shared_is_idempotent() {
    let mut emissions: Vec<Stamped<i32>> = Vec::new();
    emissions.push(Stamped { at: 1, value: 4 });
    let local = Observable::<i32, ()>::new(emissions, 2, Ending::Completed);
    assert_eq!(local.mode, ExecMode::Local);
    let once = local.clone().to_shared();
    let twice = local.to_shared().to_shared();
    assert_eq!(once, twice);
    // the promotion changes the execution mode and nothing observable
    assert_eq!(once.clone().into_signals(), twice.into_signals());
    assert_eq!(
        once.into_signals(),
        vec![Signal::Next(4), Signal::Complete]
    );
}

#[test]
fn scheduler_drains_due_callbacks_in_order() {
    let mut scheduler = LocalScheduler::new();
    scheduler.schedule(0, Some(4), 0);
    scheduler.schedule(3, Some(4), 3);
    scheduler.schedule(9, None, 9);
    let batch = scheduler.drain_due(7);
    assert_eq!(
        batch,
        vec![
            ScheduledTask { due: 4, token: 0 },
            ScheduledTask { due: 7, token: 3 },
        ]
    );
    assert_eq!(
        scheduler.pending,
        vec![ScheduledTask { due: 9, token: 9 }]
    );
}

#[test]
fn pure_observer_forwards_only_next() {
    let mut pure = SubscribePure::new(VecCollector::<i32>::new());
    assert!(!pure.is_stopped());
    pure.next(1);
    pure.next(2);
    pure.complete();
    assert!(pure.is_stopped());
    assert_eq!(pure.handler.items, vec![1, 2]);
    assert_eq!(pure.clone().to_shared().handler.items, vec![1, 2]);
}

#[test]
fn pure_subscribe_discards_error_terminal() {
    let mut emissions: Vec<Stamped<i32>> = Vec::new();
    emissions.push(Stamped { at: 0, value: 6 });
    let source = Observable::<i32, ()>::new(emissions, 1, Ending::Failed(()));
    let sub = source.subscribe(VecCollector::new());
    assert_eq!(sub.observer.handler.items, vec![6]);
    assert!(sub.subscription.closed);
}

#[test]
fn collector_handler_records_in_order() {
    let mut handler = VecCollector::<i32>::new();
    handler.on_next(3);
    handler.on_next(1);
    assert_eq!(handler.items, vec![3, 1]);
}
