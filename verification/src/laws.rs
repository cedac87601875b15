//! Laws of the wait state machine, proved over every event trace.
//!
//! A trace is the finite sequence of events a waiting task has consumed so
//! far. The laws pin down how a wait ends: at the first matching observation,
//! at the first closed-channel event, or — for a bounded wait — in a timeout
//! exactly when the whole trace was passed over.

use vstd::prelude::*;
use vstd::std_specs::cmp::PartialEqSpec;

use crate::wait::WaitError;
use crate::wait::WaitEvent;
use crate::wait::WaitStatus;
use crate::wait::is_match;
use crate::wait::is_pass;
use crate::wait::step_spec;
use crate::wait::timeout_verdict_spec;
use crate::wait::wait_status;

verus! {

/// The wait on `desired` ends in a match at index `i` of the trace: the event
/// there matches and every earlier event was passed over.
pub open spec fn matched_at<T: PartialEq>(desired: T, events: Seq<WaitEvent<T>>, i: int) -> bool {
    &&& 0 <= i < events.len()
    &&& is_match(desired, events[i])
    &&& forall|j: int| 0 <= j < i ==> is_pass(desired, #[trigger] events[j])
}

/// The wait on `desired` runs into the destroyed producer at index `i` of the
/// trace: the event there is `Closed` and every earlier event was passed over.
pub open spec fn closed_at<T: PartialEq>(desired: T, events: Seq<WaitEvent<T>>, i: int) -> bool {
    &&& 0 <= i < events.len()
    &&& events[i] is Closed
    &&& forall|j: int| 0 <= j < i ==> is_pass(desired, #[trigger] events[j])
}

/// How a wait ends is decided by the first decisive event of its trace: it is
/// matched exactly when a matching observation is preceded only by passed-over
/// observations, it surfaces the gone producer exactly when a closed-channel
/// event is preceded only by passed-over observations, and it is still
/// observing exactly when every event of the trace was passed over.
pub proof fn lemma_status_characterization<T: PartialEq>(desired: T, events: Seq<WaitEvent<T>>)
    ensures
        wait_status(desired, events) is Matched <==> exists|i: int|
            matched_at(desired, events, i),
        wait_status(desired, events) is ProducerGone <==> exists|i: int|
            closed_at(desired, events, i),
        wait_status(desired, events) is Observing <==> forall|j: int|
            0 <= j < events.len() ==> is_pass(desired, #[trigger] events[j]),
    decreases events.len(),
{
    if events.len() == 0 {
        assert(forall|i: int| !matched_at(desired, events, i));
        assert(forall|i: int| !closed_at(desired, events, i));
    } else if is_match(desired, events[0]) {
        assert(matched_at(desired, events, 0));
        assert(forall|i: int| #[trigger] closed_at(desired, events, i) ==> false) by {
            assert forall|i: int| #[trigger] closed_at(desired, events, i) implies false by {
                if i == 0 {
                    assert(events[0] is Observed);
                } else {
                    assert(is_pass(desired, events[0]));
                }
            }
        }
        assert(!is_pass(desired, events[0]));
    } else if events[0] is Closed {
        assert(closed_at(desired, events, 0));
        assert forall|i: int| #[trigger] matched_at(desired, events, i) implies false by {
            if i == 0 {
                assert(events[0] is Observed);
            } else {
                assert(is_pass(desired, events[0]));
            }
        }
        assert(!is_pass(desired, events[0]));
    } else {
        let tail = events.drop_first();
        lemma_status_characterization(desired, tail);
        assert(is_pass(desired, events[0]));
        assert(step_spec(desired, events[0]) is Observing);
        assert(wait_status(desired, events) == wait_status(desired, tail));

        assert forall|i: int| #[trigger] matched_at(desired, events, i) implies matched_at(
            desired,
            tail,
            i - 1,
        ) by {
            assert(i >= 1);
            assert(tail[i - 1] == events[i]);
            assert forall|j: int| 0 <= j < i - 1 implies is_pass(desired, #[trigger] tail[j]) by {
                assert(tail[j] == events[j + 1]);
                assert(is_pass(desired, events[j + 1]));
            }
        }
        assert forall|i: int| #[trigger] matched_at(desired, tail, i) implies matched_at(
            desired,
            events,
            i + 1,
        ) by {
            assert(events[i + 1] == tail[i]);
            assert forall|j: int| 0 <= j < i + 1 implies is_pass(desired, #[trigger] events[j]) by {
                if j >= 1 {
                    assert(events[j] == tail[j - 1]);
                    assert(is_pass(desired, tail[j - 1]));
                }
            }
        }
        assert((exists|i: int| matched_at(desired, events, i)) <==> (exists|i: int|
            matched_at(desired, tail, i))) by {
            if exists|i: int| matched_at(desired, events, i) {
                let i = choose|i: int| matched_at(desired, events, i);
                assert(matched_at(desired, tail, i - 1));
            }
            if exists|i: int| matched_at(desired, tail, i) {
                let i = choose|i: int| matched_at(desired, tail, i);
                assert(matched_at(desired, events, i + 1));
            }
        }

        assert forall|i: int| #[trigger] closed_at(desired, events, i) implies closed_at(
            desired,
            tail,
            i - 1,
        ) by {
            assert(i >= 1);
            assert(tail[i - 1] == events[i]);
            assert forall|j: int| 0 <= j < i - 1 implies is_pass(desired, #[trigger] tail[j]) by {
                assert(tail[j] == events[j + 1]);
                assert(is_pass(desired, events[j + 1]));
            }
        }
        assert forall|i: int| #[trigger] closed_at(desired, tail, i) implies closed_at(
            desired,
            events,
            i + 1,
        ) by {
            assert(events[i + 1] == tail[i]);
            assert forall|j: int| 0 <= j < i + 1 implies is_pass(desired, #[trigger] events[j]) by {
                if j >= 1 {
                    assert(events[j] == tail[j - 1]);
                    assert(is_pass(desired, tail[j - 1]));
                }
            }
        }
        assert((exists|i: int| closed_at(desired, events, i)) <==> (exists|i: int|
            closed_at(desired, tail, i))) by {
            if exists|i: int| closed_at(desired, events, i) {
                let i = choose|i: int| closed_at(desired, events, i);
                assert(closed_at(desired, tail, i - 1));
            }
            if exists|i: int| closed_at(desired, tail, i) {
                let i = choose|i: int| closed_at(desired, tail, i);
                assert(closed_at(desired, events, i + 1));
            }
        }

        assert((forall|j: int| 0 <= j < events.len() ==> is_pass(desired, #[trigger] events[j]))
            <==> (forall|j: int| 0 <= j < tail.len() ==> is_pass(desired, #[trigger] tail[j]))) by {
            if forall|j: int| 0 <= j < tail.len() ==> is_pass(desired, #[trigger] tail[j]) {
                assert forall|j: int| 0 <= j < events.len() implies is_pass(
                    desired,
                    #[trigger] events[j],
                ) by {
                    if j >= 1 {
                        assert(events[j] == tail[j - 1]);
                        assert(is_pass(desired, tail[j - 1]));
                    }
                }
            }
            if forall|j: int| 0 <= j < events.len() ==> is_pass(desired, #[trigger] events[j]) {
                assert forall|j: int| 0 <= j < tail.len() implies is_pass(
                    desired,
                    #[trigger] tail[j],
                ) by {
                    assert(tail[j] == events[j + 1]);
                    assert(is_pass(desired, events[j + 1]));
                }
            }
        }
    }
}

/// A wait decides step by step, and a decision is final: while a trace leaves
/// the wait observing, one more event decides exactly as the single step on
/// that event does; once a trace has matched or run into the gone producer,
/// no further event changes the outcome.
pub proof fn lemma_status_extend<T: PartialEq>(
    desired: T,
    events: Seq<WaitEvent<T>>,
    event: WaitEvent<T>,
)
    ensures
        wait_status(desired, events) is Observing ==> wait_status(desired, events.push(event))
            == step_spec(desired, event),
        !(wait_status(desired, events) is Observing) ==> wait_status(desired, events.push(event))
            == wait_status(desired, events),
    decreases events.len(),
{
    if events.len() == 0 {
        assert(events.push(event)[0] == event);
        assert(events.push(event).drop_first() =~= Seq::<WaitEvent<T>>::empty());
        if step_spec(desired, event) is Observing {
            assert(wait_status(desired, events.push(event)) == wait_status(
                desired,
                events.push(event).drop_first(),
            ));
        }
    } else {
        lemma_status_extend(desired, events.drop_first(), event);
        assert(events.push(event)[0] == events[0]);
        assert(events.push(event).drop_first() =~= events.drop_first().push(event));
        if step_spec(desired, events[0]) is Observing {
            assert(wait_status(desired, events) == wait_status(desired, events.drop_first()));
            assert(wait_status(desired, events.push(event)) == wait_status(
                desired,
                events.drop_first().push(event),
            ));
        } else {
            assert(wait_status(desired, events.push(event)) == step_spec(desired, events[0]));
        }
    }
}

/// An already-satisfied wait returns promptly: when the first observed
/// snapshot already equals the desired value, the wait is matched on that
/// very first event, whatever follows it.
pub proof fn lemma_immediate_match<T: PartialEq>(desired: T, events: Seq<WaitEvent<T>>)
    requires
        events.len() > 0,
        is_match(desired, events[0]),
    ensures
        wait_status(desired, events) is Matched,
        wait_status(desired, events.take(1)) is Matched,
{
    assert(step_spec(desired, events[0]) is Matched);
    assert(events.take(1)[0] == events[0]);
    assert(step_spec(desired, events.take(1)[0]) is Matched);
}

/// A wait suspended on a value nobody has produced stays suspended: as long
/// as every observation differs from the desired value, the wait is still
/// observing; it is matched exactly when the first matching observation
/// arrives.
pub proof fn lemma_wait_until_match<T: PartialEq>(desired: T, events: Seq<WaitEvent<T>>)
    ensures
        (forall|j: int| 0 <= j < events.len() ==> is_pass(desired, #[trigger] events[j]))
            ==> wait_status(desired, events) is Observing,
        wait_status(desired, events) is Matched <==> exists|i: int| matched_at(desired, events, i),
{
    lemma_status_characterization(desired, events);
}

/// A bounded wait times out exactly when nothing decisive happened: the
/// verdict is `TimedOut` iff every event of the trace was passed over.
pub proof fn lemma_timeout_iff_no_decisive<T: PartialEq>(desired: T, events: Seq<WaitEvent<T>>)
    ensures
        timeout_verdict_spec(wait_status(desired, events)) == Err::<(), WaitError>(
            WaitError::TimedOut,
        ) <==> forall|j: int| 0 <= j < events.len() ==> is_pass(desired, #[trigger] events[j]),
{
    lemma_status_characterization(desired, events);
}

/// A match that arrives in time wins over the timer: if some event of the
/// trace matches and no closed-channel event precedes it, a bounded wait over
/// that trace returns success, never `TimedOut`.
pub proof fn lemma_match_preempts_timeout<T: PartialEq>(
    desired: T,
    events: Seq<WaitEvent<T>>,
    i: int,
)
    requires
        0 <= i < events.len(),
        is_match(desired, events[i]),
        forall|j: int| 0 <= j < i ==> !((#[trigger] events[j]) is Closed),
    ensures
        wait_status(desired, events) is Matched,
        timeout_verdict_spec(wait_status(desired, events)) == Ok::<(), WaitError>(()),
    decreases events.len(),
{
    if is_match(desired, events[0]) {
        assert(step_spec(desired, events[0]) is Matched);
    } else {
        assert(i >= 1);
        assert(!(events[0] is Closed));
        assert(is_pass(desired, events[0]));
        assert(step_spec(desired, events[0]) is Observing);
        let tail = events.drop_first();
        assert(tail[i - 1] == events[i]);
        assert forall|j: int| 0 <= j < i - 1 implies !((#[trigger] tail[j]) is Closed) by {
            assert(tail[j] == events[j + 1]);
            assert(!(events[j + 1] is Closed));
        }
        lemma_match_preempts_timeout(desired, tail, i - 1);
    }
}

} // verus!
