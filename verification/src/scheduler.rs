//! The time-based scheduler contract, modelled cooperatively: `schedule`
//! registers a callback with an optional delay and an opaque comparable
//! token, fire-and-forget; a due callback never runs before its delay has
//! elapsed. The cooperative dispatcher runs every callback that is due at or
//! before the instant it is advanced to, before any later upstream activity.
//! Tokens, not cancellation, decide staleness: the callback itself compares
//! its token against the operator's state when it fires.

use vstd::prelude::*;

verus! {

/// One registered callback: when it may fire, and the token it carries back.
#[derive(Clone, Copy, Debug, PartialEq, Eq, Structural)]
pub struct ScheduledTask {
    /// Earliest instant the callback may run.
    pub due: u64,
    /// Opaque comparable key handed back to the callback for staleness checks.
    pub token: u64,
}

/// Tasks ordered by due time, so the dispatcher fires them front to back.
pub open spec fn sorted_by_due(s: Seq<ScheduledTask>) -> bool {
    forall|i: int, j: int|
        0 <= i <= j < s.len() ==> (#[trigger] s[i].due) <= (#[trigger] s[j].due)
}

/// A cooperative scheduler for one logical execution context: pending
/// callbacks, kept in registration order.
#[derive(Clone, Debug, PartialEq, Eq)]
pub struct LocalScheduler {
    /// The callbacks registered and not yet dispatched.
    pub pending: Vec<ScheduledTask>,
}

/// The instant a callback scheduled now with the given delay becomes due.
pub open spec fn due_time(now: u64, delay: Option<u64>) -> int {
    match delay {
        Some(d) => now + d,
        None => now as int,
    }
}

impl LocalScheduler {
    /// A scheduler with nothing pending.
    pub fn new() -> (r: LocalScheduler)
        ensures
            r.pending@ == Seq::<ScheduledTask>::empty(),
    {
        LocalScheduler { pending: Vec::new() }
    }

    /// Register a callback. With no delay it becomes due immediately; with a
    /// delay it must not run before that duration has elapsed from `now`.
    /// Nothing is ever cancelled.
    pub fn schedule(&mut self, now: u64, delay: Option<u64>, token: u64)
        requires
            due_time(now, delay) <= u64::MAX,
        ensures
            final(self).pending@ == old(self).pending@.push(ScheduledTask {
                due: due_time(now, delay) as u64,
                token,
            }),
    {
        let due = match delay {
            Some(d) => now + d,
            None => now,
        };
        self.pending.push(ScheduledTask { due, token });
    }

    /// Advance the context to instant `t`: remove and return, in order, every
    /// callback that is due at or before `t`; later ones stay pending.
    pub fn drain_due(&mut self, t: u64) -> (batch: Vec<ScheduledTask>)
        requires
            sorted_by_due(old(self).pending@),
        ensures
            old(self).pending@ == batch@ + final(self).pending@,
            batch@ == old(self).pending@.subrange(0, batch@.len() as int),
            final(self).pending@ == old(self).pending@.subrange(
                batch@.len() as int,
                old(self).pending@.len() as int,
            ),
            forall|k: int| 0 <= k < batch@.len() ==> (#[trigger] batch@[k]).due <= t,
            forall|k: int|
                0 <= k < final(self).pending@.len() ==> (#[trigger] final(self).pending@[k]).due
                    > t,
            sorted_by_due(final(self).pending@),
    {
        let n = self.pending.len();
        let mut split: usize = 0;
        while split < n && self.pending[split].due <= t
            invariant
                split <= n,
                n == self.pending@.len(),
                forall|k: int| 0 <= k < split ==> (#[trigger] self.pending@[k]).due <= t,
            decreases n - split,
        {
            split = split + 1;
        }
        proof {
            assert(forall|k: int|
                split <= k < n ==> (#[trigger] self.pending@[k]).due >= self.pending@[
                    split as int].due);
        }
        let mut batch: Vec<ScheduledTask> = Vec::new();
        let mut i: usize = 0;
        while i < split
            invariant
                i <= split,
                split <= n,
                n == self.pending@.len(),
                batch@ == self.pending@.subrange(0, i as int),
            decreases split - i,
        {
            batch.push(self.pending[i]);
            proof {
                assert(self.pending@.subrange(0, i as int + 1) =~= self.pending@.subrange(
                    0,
                    i as int,
                ).push(self.pending@[i as int]));
            }
            i = i + 1;
        }
        let mut rest: Vec<ScheduledTask> = Vec::new();
        let mut j: usize = split;
        while j < n
            invariant
                split <= j <= n,
                n == self.pending@.len(),
                rest@ == self.pending@.subrange(split as int, j as int),
            decreases n - j,
        {
            rest.push(self.pending[j]);
            proof {
                assert(self.pending@.subrange(split as int, j as int + 1)
                    =~= self.pending@.subrange(split as int, j as int).push(self.pending@[
                    j as int]));
            }
            j = j + 1;
        }
        proof {
            assert(self.pending@ =~= batch@ + self.pending@.subrange(split as int, n as int));
        }
        self.pending = rest;
        batch
    }
}

} // verus!
