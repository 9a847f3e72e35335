//! The metrics loop as a state machine.
//!
//! The loop waits for whichever comes first, a metric from the channel or a
//! tick of the flush timer, and serves exactly one of them before it waits
//! again. Waiting is the caller's business: it reports what happened as an
//! event, and the machine answers with the one thing to do next.

use crate::log::{startup_record, LogRecord};
use vstd::prelude::*;

verus! {

/// Where the loop stands.
#[derive(Clone, Copy, Debug, PartialEq, Eq, Structural)]
pub enum TaskState {
    /// The loop takes metrics and flushes on every tick.
    Running,
    /// The channel is closed and the loop is finishing its last round.
    Draining,
    /// The loop has ended or was cancelled.
    Terminated,
}

/// What the loop was woken by.
#[derive(Debug, PartialEq, Eq)]
pub enum TaskEvent<M> {
    /// The channel handed over a metric.
    Received(M),
    /// The flush timer ticked.
    Tick,
    /// The channel is closed and empty: no producer is left.
    Closed,
    /// The owner of the loop gave it up.
    Cancelled,
}

/// What the loop does next.
#[derive(Debug, PartialEq, Eq)]
pub enum TaskAction<M> {
    /// Hand the metric to the aggregator.
    Accept(M),
    /// Have the aggregator flush, and wait until it is done.
    Flush,
    /// Leave the loop.
    Stop,
}

/// One round of the loop. While it runs, a metric is accepted and a tick
/// flushes; a closed channel sends it into its last round. Cancelling ends it
/// from any state. Once the loop has left `Running` it serves nothing more.
pub open spec fn spec_step<M>(state: TaskState, event: TaskEvent<M>) -> (TaskState, TaskAction<M>) {
    match state {
        TaskState::Running => match event {
            TaskEvent::Received(metric) => (TaskState::Running, TaskAction::Accept(metric)),
            TaskEvent::Tick => (TaskState::Running, TaskAction::Flush),
            TaskEvent::Closed => (TaskState::Draining, TaskAction::Stop),
            TaskEvent::Cancelled => (TaskState::Terminated, TaskAction::Stop),
        },
        TaskState::Draining => (TaskState::Terminated, TaskAction::Stop),
        TaskState::Terminated => (TaskState::Terminated, TaskAction::Stop),
    }
}

/// The state after a run of events, one round for each.
pub open spec fn state_after<M>(state: TaskState, events: Seq<TaskEvent<M>>) -> TaskState
    decreases events.len(),
{
    if events.len() == 0 {
        state
    } else {
        spec_step(state_after(state, events.drop_last()), events.last()).0
    }
}

/// What the loop does over a run of events, one action for each.
pub open spec fn actions_of<M>(state: TaskState, events: Seq<TaskEvent<M>>) -> Seq<TaskAction<M>>
    decreases events.len(),
{
    if events.len() == 0 {
        Seq::empty()
    } else {
        actions_of(state, events.drop_last()).push(
            spec_step(state_after(state, events.drop_last()), events.last()).1,
        )
    }
}

/// The state in which the loop begins, with the notice to log.
pub fn start() -> (begun: (TaskState, LogRecord))
    ensures
        begun.0 == TaskState::Running,
        begun.1@ == startup_record(),
{
    (TaskState::Running, LogRecord::startup())
}

/// Serves one event: the state to go on with and the one thing to do.
pub fn step<M>(state: TaskState, event: TaskEvent<M>) -> (next: (TaskState, TaskAction<M>))
    ensures
        next == spec_step(state, event),
{
    match state {
        TaskState::Running => match event {
            TaskEvent::Received(metric) => (TaskState::Running, TaskAction::Accept(metric)),
            TaskEvent::Tick => (TaskState::Running, TaskAction::Flush),
            TaskEvent::Closed => (TaskState::Draining, TaskAction::Stop),
            TaskEvent::Cancelled => (TaskState::Terminated, TaskAction::Stop),
        },
        TaskState::Draining => (TaskState::Terminated, TaskAction::Stop),
        TaskState::Terminated => (TaskState::Terminated, TaskAction::Stop),
    }
}

/// One action answers each event.
pub proof fn lemma_one_action_per_event<M>(state: TaskState, events: Seq<TaskEvent<M>>)
    ensures
        actions_of(state, events).len() == events.len(),
    decreases events.len(),
{
    if events.len() > 0 {
        lemma_one_action_per_event(state, events.drop_last());
    }
}

/// The `i`-th action of a run is what one round makes of the `i`-th event in
/// the state that the events before it led to.
pub proof fn lemma_action_at<M>(state: TaskState, events: Seq<TaskEvent<M>>, i: int)
    requires
        0 <= i < events.len(),
    ensures
        actions_of(state, events).len() == events.len(),
        actions_of(state, events)[i] == spec_step(state_after(state, events.take(i)), events[i]).1,
    decreases events.len(),
{
    lemma_one_action_per_event(state, events);
    lemma_one_action_per_event(state, events.drop_last());
    if i == events.len() - 1 {
        assert(events.take(i) == events.drop_last());
    } else {
        lemma_action_at(state, events.drop_last(), i);
        assert(events.drop_last().take(i) == events.take(i));
    }
}

/// A flush answers a tick and nothing else: while metrics arrive and the
/// timer has not ticked, the loop stays running, accepts each metric in the
/// order of arrival, and does not flush.
pub proof fn lemma_no_flush_without_tick<M>(events: Seq<TaskEvent<M>>)
    requires
        forall|i: int| 0 <= i < events.len() ==> (#[trigger] events[i]) is Received,
    ensures
        state_after(TaskState::Running, events) == TaskState::Running,
        actions_of(TaskState::Running, events).len() == events.len(),
        forall|i: int|
            0 <= i < events.len() ==> #[trigger] actions_of(TaskState::Running, events)[i]
                == TaskAction::Accept(events[i]->Received_0),
    decreases events.len(),
{
    lemma_one_action_per_event(TaskState::Running, events);
    if events.len() > 0 {
        let earlier = events.drop_last();
        assert forall|i: int| 0 <= i < earlier.len() implies (#[trigger] earlier[i]) is Received by {
            assert(earlier[i] == events[i]);
        }
        lemma_no_flush_without_tick(earlier);
        assert(events.last() == events[events.len() - 1]);
        assert forall|i: int| 0 <= i < events.len() implies #[trigger] actions_of(
            TaskState::Running,
            events,
        )[i] == TaskAction::Accept(events[i]->Received_0) by {
            if i < earlier.len() {
                assert(actions_of(TaskState::Running, events)[i] == actions_of(
                    TaskState::Running,
                    earlier,
                )[i]);
                assert(earlier[i] == events[i]);
            }
        }
    }
}

/// Every flush of a run answers a tick that came while the loop was running.
pub proof fn lemma_flush_answers_tick<M>(state: TaskState, events: Seq<TaskEvent<M>>, i: int)
    requires
        0 <= i < events.len(),
        actions_of(state, events)[i] is Flush,
    ensures
        events[i] is Tick,
        state_after(state, events.take(i)) == TaskState::Running,
{
    lemma_action_at(state, events, i);
}

/// Once the loop has left `Running` it stays out: whatever comes, it ends
/// terminated or about to be.
pub proof fn lemma_stopped_stays_stopped<M>(state: TaskState, events: Seq<TaskEvent<M>>)
    requires
        state != TaskState::Running,
    ensures
        state_after(state, events) != TaskState::Running,
        events.len() > 0 ==> state_after(state, events) == TaskState::Terminated,
    decreases events.len(),
{
    if events.len() > 0 {
        lemma_stopped_stays_stopped(state, events.drop_last());
    }
}

/// A loop that has left `Running` serves nothing more: metrics that are
/// still on their way are never accepted and no flush is made, whatever
/// events follow.
pub proof fn lemma_stopped_processes_nothing<M>(state: TaskState, events: Seq<TaskEvent<M>>)
    requires
        state != TaskState::Running,
    ensures
        actions_of(state, events).len() == events.len(),
        forall|i: int|
            0 <= i < events.len() ==> #[trigger] actions_of(state, events)[i] == TaskAction::<
                M,
            >::Stop,
    decreases events.len(),
{
    lemma_one_action_per_event(state, events);
    if events.len() > 0 {
        let earlier = events.drop_last();
        lemma_stopped_processes_nothing(state, earlier);
        lemma_stopped_stays_stopped(state, earlier);
        assert forall|i: int| 0 <= i < events.len() implies #[trigger] actions_of(state, events)[i]
            == TaskAction::<M>::Stop by {
            if i < earlier.len() {
                assert(actions_of(state, events)[i] == actions_of(state, earlier)[i]);
            }
        }
    }
}

/// A run that is two runs one after the other: the second starts in the
/// state that the first led to.
pub proof fn lemma_run_concat<M>(
    state: TaskState,
    first: Seq<TaskEvent<M>>,
    second: Seq<TaskEvent<M>>,
)
    ensures
        state_after(state, first + second) == state_after(state_after(state, first), second),
        actions_of(state, first + second) == actions_of(state, first) + actions_of(
            state_after(state, first),
            second,
        ),
    decreases second.len(),
{
    if second.len() == 0 {
        assert(first + second == first);
        assert(actions_of(state, first) + Seq::<TaskAction<M>>::empty() == actions_of(
            state,
            first,
        ));
    } else {
        lemma_run_concat(state, first, second.drop_last());
        assert((first + second).drop_last() == first + second.drop_last());
        assert((first + second).last() == second.last());
        let middle = state_after(state, first);
        let action = spec_step(state_after(middle, second.drop_last()), second.last()).1;
        assert((actions_of(state, first) + actions_of(middle, second.drop_last())).push(action)
            == actions_of(state, first) + actions_of(middle, second.drop_last()).push(action));
    }
}

/// Cancelling ends the loop whatever it was doing, and what was still
/// pending is never served: after any run of events, a cancellation leaves
/// the loop terminated, and every event after it is answered with `Stop`.
pub proof fn lemma_cancel_discards_pending<M>(
    state: TaskState,
    before: Seq<TaskEvent<M>>,
    pending: Seq<TaskEvent<M>>,
)
    ensures
        state_after(state, before.push(TaskEvent::Cancelled)) == TaskState::Terminated,
        state_after(state, before.push(TaskEvent::Cancelled) + pending) == TaskState::Terminated,
        actions_of(state, before.push(TaskEvent::Cancelled) + pending) == actions_of(
            state,
            before.push(TaskEvent::Cancelled),
        ) + actions_of(TaskState::Terminated, pending),
        actions_of(TaskState::Terminated, pending).len() == pending.len(),
        forall|i: int|
            0 <= i < pending.len() ==> #[trigger] actions_of(TaskState::Terminated, pending)[i]
                == TaskAction::<M>::Stop,
{
    let cancelled = before.push(TaskEvent::Cancelled);
    assert(cancelled.drop_last() == before);
    assert(cancelled.last() == TaskEvent::<M>::Cancelled);
    lemma_run_concat(state, cancelled, pending);
    lemma_stopped_stays_stopped(TaskState::Terminated, pending);
    lemma_stopped_processes_nothing(TaskState::Terminated, pending);
}

} // verus!
