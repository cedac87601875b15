//! The wait state machine: what a waiting task decides on each observation.
//!
//! A task that waits for the cell to reach a desired value consumes a stream
//! of events — snapshots of the current value, or the news that the update
//! side is gone — and after each event is either still observing, matched, or
//! facing a gone producer. The functions here are that decision logic; the
//! driving loop merely feeds them events.

use vstd::prelude::*;
use vstd::std_specs::cmp::PartialEqSpec;

verus! {

/// One observation delivered to a waiting task.
#[derive(Debug)]
pub enum WaitEvent<T> {
    /// A snapshot of the cell's current value, as seen by the waiter's handle.
    Observed(T),
    /// The update side of the cell was destroyed while the waiter was suspended.
    Closed,
}

/// Where a waiting task stands after the events it has consumed so far.
#[derive(Clone, Copy, Debug, PartialEq, Eq, Structural)]
pub enum WaitStatus {
    /// No decisive event yet: the task stays suspended.
    Observing,
    /// The desired value was observed: the wait is over.
    Matched,
    /// The producer was destroyed before the desired value was observed.
    ProducerGone,
}

/// The errors a wait can surface to its caller.
#[derive(Clone, Copy, Debug, PartialEq, Eq, Structural)]
pub enum WaitError {
    /// The timeout elapsed before the desired value was observed. Recoverable.
    TimedOut,
    /// The update side of the cell was destroyed while the wait was
    /// outstanding: a contract violation by the producer, unrecoverable.
    ProducerGone,
}

/// `event` observes a value equal to `desired`: the wait is over.
pub open spec fn is_match<T: PartialEq>(desired: T, event: WaitEvent<T>) -> bool {
    event matches WaitEvent::Observed(v) && v.eq_spec(&desired)
}

/// `event` observes a value different from `desired`: the wait passes it over.
pub open spec fn is_pass<T: PartialEq>(desired: T, event: WaitEvent<T>) -> bool {
    event matches WaitEvent::Observed(v) && !v.eq_spec(&desired)
}

/// What one event means for a task waiting on `desired`.
pub open spec fn step_spec<T: PartialEq>(desired: T, event: WaitEvent<T>) -> WaitStatus {
    match event {
        WaitEvent::Observed(v) => if v.eq_spec(&desired) {
            WaitStatus::Matched
        } else {
            WaitStatus::Observing
        },
        WaitEvent::Closed => WaitStatus::ProducerGone,
    }
}

/// The status of a wait on `desired` after it has consumed `events`, first
/// to last: the wait ends at the first decisive event and passes over every
/// other observation.
pub open spec fn wait_status<T: PartialEq>(desired: T, events: Seq<WaitEvent<T>>) -> WaitStatus
    decreases events.len(),
{
    if events.len() == 0 {
        WaitStatus::Observing
    } else if step_spec(desired, events[0]) is Observing {
        wait_status(desired, events.drop_first())
    } else {
        step_spec(desired, events[0])
    }
}

/// Maps the status a bounded wait ended in to the caller's result: a wait
/// still observing when the timer fires has timed out.
pub open spec fn timeout_verdict_spec(status: WaitStatus) -> Result<(), WaitError> {
    match status {
        WaitStatus::Observing => Err(WaitError::TimedOut),
        WaitStatus::Matched => Ok(()),
        WaitStatus::ProducerGone => Err(WaitError::ProducerGone),
    }
}

/// Maps a status to what an unbounded wait does next: `None` keeps waiting,
/// `Some` ends the wait with that result.
pub open spec fn wait_verdict_spec(status: WaitStatus) -> Option<Result<(), WaitError>> {
    match status {
        WaitStatus::Observing => None,
        WaitStatus::Matched => Some(Ok(())),
        WaitStatus::ProducerGone => Some(Err(WaitError::ProducerGone)),
    }
}

/// Decides what one event means for a task waiting on `desired`.
pub fn wait_step<T: PartialEq>(desired: &T, event: &WaitEvent<T>) -> (r: WaitStatus)
    ensures
        T::obeys_eq_spec() ==> r == step_spec(*desired, *event),
        (*event) is Closed <==> r is ProducerGone,
        (*event) is Observed ==> (r is Matched || r is Observing),
{
    match event {
        WaitEvent::Observed(v) => {
            if *v == *desired {
                WaitStatus::Matched
            } else {
                WaitStatus::Observing
            }
        },
        WaitEvent::Closed => WaitStatus::ProducerGone,
    }
}

/// Turns the status a bounded wait ended in into the caller's result.
pub fn timeout_verdict(status: WaitStatus) -> (r: Result<(), WaitError>)
    ensures
        r == timeout_verdict_spec(status),
{
    match status {
        WaitStatus::Observing => Err(WaitError::TimedOut),
        WaitStatus::Matched => Ok(()),
        WaitStatus::ProducerGone => Err(WaitError::ProducerGone),
    }
}

/// Tells an unbounded wait whether to keep waiting (`None`) or to end with
/// the given result (`Some`).
pub fn wait_verdict(status: WaitStatus) -> (r: Option<Result<(), WaitError>>)
    ensures
        r == wait_verdict_spec(status),
{
    match status {
        WaitStatus::Observing => None,
        WaitStatus::Matched => Some(Ok(())),
        WaitStatus::ProducerGone => Some(Err(WaitError::ProducerGone)),
    }
}

/// Runs a whole wait over a finite trace of events: the status returned is
/// that of the first decisive event, or `Observing` if there is none.
pub fn scan_events<T: PartialEq>(desired: &T, events: &Vec<WaitEvent<T>>) -> (r: WaitStatus)
    ensures
        T::obeys_eq_spec() ==> r == wait_status(*desired, events@),
{
    let n = events.len();
    let mut i: usize = 0;
    proof {
        assert(events@.skip(0) =~= events@);
    }
    while i < n
        invariant
            n == events@.len(),
            i <= n,
            T::obeys_eq_spec() ==> wait_status(*desired, events@) == wait_status(
                *desired,
                events@.skip(i as int),
            ),
        decreases n - i,
    {
        let status = wait_step(desired, &events[i]);
        proof {
            if T::obeys_eq_spec() {
                assert(events@.skip(i as int)[0] == events@[i as int]);
                assert(events@.skip(i as int).drop_first() =~= events@.skip(i as int + 1));
            }
        }
        match status {
            WaitStatus::Observing => {
                i = i + 1;
            },
            _ => {
                return status;
            },
        }
    }
    proof {
        assert(events@.skip(n as int) =~= Seq::<WaitEvent<T>>::empty());
    }
    WaitStatus::Observing
}

} // verus!
