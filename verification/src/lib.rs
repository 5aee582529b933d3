//! A deterministic reactive-stream core: observables modelled as timed event
//! scripts, a subscription/observer protocol with at-most-one terminal signal,
//! a cooperative time-based scheduler, the debounce operator, and a bridge
//! from one-shot asynchronous computations to observables.
//!
//! Time is injected as plain `u64` timestamps from a monotonic clock, so every
//! operator decision is a verified function of values; the surrounding
//! executor (a worker pool or a cooperative loop) performs the waiting and
//! hands the timestamps in.

pub mod signal;
pub mod subscription;
pub mod observer;
pub mod subscriber;
pub mod observable;
pub mod scheduler;
pub mod debounce;
pub mod from_future;
pub mod subscribable_pure;
