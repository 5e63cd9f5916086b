//! Waiting for a worker, but not forever.
//!
//! The work runs on a worker of its own. The caller looks at the worker at
//! short intervals: it takes the result when the worker has finished and
//! gives up when the limit has passed. A worker that is given up is left
//! alone; nothing stops it. This module decides what the caller does after
//! each look; the caller owns the worker, the clock and the sleeping.

use vstd::prelude::*;

verus! {

/// How long the caller sleeps between two looks at the worker, in
/// milliseconds.
pub const POLL_INTERVAL_MS: u64 = 20;

/// How a bounded run ended.
pub enum JobOutcome<T> {
    /// The worker finished within the limit; this is what it returned.
    Completed(T),
    /// The limit passed first. The worker was left running.
    TimedOut,
    /// The worker finished within the limit by panicking.
    Panicked,
}

/// What the caller does after a look at the worker.
#[derive(Debug, Clone, Copy, PartialEq, Eq, Structural)]
pub enum Wait {
    /// The worker has finished: take what it returned.
    Join,
    /// The limit has passed: stop waiting and leave the worker alone.
    GiveUp,
    /// Sleep for so many milliseconds, then look again.
    Sleep(u64),
}

/// What follows a look at which the worker was `done` or not, `elapsed`
/// after the start, under the limit `limit` (both in nanoseconds). A worker
/// that has finished is joined even when the limit has passed meanwhile.
pub open spec fn wait_after(done: bool, elapsed: u128, limit: u128) -> Wait {
    if done {
        Wait::Join
    } else if elapsed > limit {
        Wait::GiveUp
    } else {
        Wait::Sleep(POLL_INTERVAL_MS)
    }
}

/// Decides what follows one look at the worker.
pub fn poll(done: bool, elapsed: u128, limit: u128) -> (wait: Wait)
    ensures
        wait == wait_after(done, elapsed, limit),
{
    if done {
        Wait::Join
    } else if elapsed > limit {
        Wait::GiveUp
    } else {
        Wait::Sleep(POLL_INTERVAL_MS)
    }
}

/// The outcome of a run whose worker was joined: `returned` holds what the
/// worker returned, or nothing if it panicked.
pub fn joined<T>(returned: Option<T>) -> (outcome: JobOutcome<T>)
    ensures
        outcome == match returned {
            Some(value) => JobOutcome::Completed(value),
            None => JobOutcome::<T>::Panicked,
        },
{
    match returned {
        Some(value) => JobOutcome::Completed(value),
        None => JobOutcome::Panicked,
    }
}

/// The outcome of a run that was given up.
pub fn given_up<T>() -> (outcome: JobOutcome<T>)
    ensures
        outcome == JobOutcome::<T>::TimedOut,
{
    JobOutcome::TimedOut
}

/// One look at a worker: whether it had finished, and the time since the
/// start in nanoseconds.
pub struct Look {
    pub done: bool,
    pub elapsed: u128,
}

/// The place of the look that ends a wait: the first at which the caller
/// does not go back to sleep. `None` where the looks given do not end it.
pub open spec fn deciding_look(looks: Seq<Look>, limit: u128) -> Option<int>
    decreases looks.len(),
{
    if looks.len() == 0 {
        None
    } else if wait_after(looks[0].done, looks[0].elapsed, limit) != Wait::Sleep(
        POLL_INTERVAL_MS,
    ) {
        Some(0)
    } else {
        match deciding_look(looks.drop_first(), limit) {
            Some(i) => Some(i + 1),
            None => None,
        }
    }
}

/// A worker that has not finished when the limit has passed is given up at
/// the first look after the limit, whatever it does later: the wait ends
/// there with [`Wait::GiveUp`], and at every look before it the limit had
/// not passed. So the caller sleeps for the last time at or before the
/// limit, and has control back one interval later.
pub proof fn lemma_slow_worker_times_out(looks: Seq<Look>, limit: u128, k: int)
    requires
        0 <= k < looks.len(),
        forall|i: int| 0 <= i <= k ==> !(#[trigger] looks[i]).done,
        looks[k].elapsed > limit,
        forall|i: int| 0 <= i < k ==> (#[trigger] looks[i]).elapsed <= limit,
    ensures
        deciding_look(looks, limit) == Some(k),
        wait_after(looks[k].done, looks[k].elapsed, limit) == Wait::GiveUp,
    decreases k,
{
    if k > 0 {
        let rest = looks.drop_first();
        assert forall|i: int| 0 <= i <= k - 1 implies !(#[trigger] rest[i]).done by {
            assert(rest[i] == looks[i + 1]);
        }
        assert forall|i: int| 0 <= i < k - 1 implies (#[trigger] rest[i]).elapsed <= limit by {
            assert(rest[i] == looks[i + 1]);
        }
        assert(rest[k - 1] == looks[k]);
        lemma_slow_worker_times_out(rest, limit, k - 1);
    }
}

/// A worker that finishes is joined at the first look that finds it done,
/// provided the limit had not passed at any look before.
pub proof fn lemma_finished_worker_is_joined(looks: Seq<Look>, limit: u128, k: int)
    requires
        0 <= k < looks.len(),
        looks[k].done,
        forall|i: int| 0 <= i < k ==> !(#[trigger] looks[i]).done && looks[i].elapsed <= limit,
    ensures
        deciding_look(looks, limit) == Some(k),
        wait_after(looks[k].done, looks[k].elapsed, limit) == Wait::Join,
    decreases k,
{
    if k > 0 {
        let rest = looks.drop_first();
        assert forall|i: int| 0 <= i < k - 1 implies !(#[trigger] rest[i]).done && rest[i].elapsed
            <= limit by {
            assert(rest[i] == looks[i + 1]);
        }
        assert(rest[k - 1] == looks[k]);
        lemma_finished_worker_is_joined(rest, limit, k - 1);
    }
}

} // verus!
