//! What a shard's worker does next.
//!
//! A worker pins its thread, then passes over its channels again and again,
//! resting after a pass that found nothing, until it is asked to stop. The
//! pinning, the resting and the reading of the stop signal happen elsewhere;
//! here stands the rule that turns what happened into what to do.

use crate::core_affinity::CoreId;
use vstd::prelude::*;

verus! {

/// Where a worker stands.
#[derive(Clone, Copy, Debug, PartialEq, Eq, Structural)]
pub enum WorkerState {
    /// The thread has started and was not pinned yet.
    Pinning,
    /// The worker passes over its channels.
    Draining,
    /// The stop signal was seen; one pass is still owed.
    ShuttingDown,
    /// The worker has ended.
    Stopped,
}

/// What a worker has just done.
#[derive(Clone, Copy, Debug, PartialEq, Eq, Structural)]
pub enum WorkerEvent {
    /// The thread was pinned, or could not be.
    Pinned(bool),
    /// A pass over the channels applied this many requests.
    Swept(usize),
    /// The worker has rested.
    Idled,
}

/// What a worker is to do.
#[derive(Clone, Copy, Debug, PartialEq, Eq, Structural)]
pub enum WorkerAction {
    /// Pin the thread to this core.
    Pin(CoreId),
    /// Pass over the channels once.
    Sweep,
    /// Rest for a moment.
    Idle,
    /// End.
    Exit,
}

/// The state and the action at the top of a pass, given whether the stop
/// signal is seen there.
pub open spec fn top_of_sweep(shutdown: bool) -> (WorkerState, WorkerAction) {
    if shutdown {
        (WorkerState::ShuttingDown, WorkerAction::Sweep)
    } else {
        (WorkerState::Draining, WorkerAction::Sweep)
    }
}

/// The state that follows `state` after `event`, and what to do then.
/// `shutdown` is the stop signal as it reads after the event.
///
/// A worker that was pinned, or could not be, goes on to its first pass. A
/// pass that applied nothing is followed by a rest, any other pass and every
/// rest by the next pass. The stop signal counts at the top of a pass alone:
/// once seen there, that one pass is made and the worker ends.
pub open spec fn next(state: WorkerState, event: WorkerEvent, shutdown: bool) -> (
    WorkerState,
    WorkerAction,
) {
    match state {
        WorkerState::Pinning => top_of_sweep(shutdown),
        WorkerState::Draining => match event {
            WorkerEvent::Swept(applied) => if applied == 0 {
                (WorkerState::Draining, WorkerAction::Idle)
            } else {
                top_of_sweep(shutdown)
            },
            _ => top_of_sweep(shutdown),
        },
        WorkerState::ShuttingDown => match event {
            WorkerEvent::Swept(_) => (WorkerState::Stopped, WorkerAction::Exit),
            _ => (WorkerState::ShuttingDown, WorkerAction::Sweep),
        },
        WorkerState::Stopped => (WorkerState::Stopped, WorkerAction::Exit),
    }
}

/// A worker that could not be pinned goes on as one that was.
pub proof fn lemma_pinning_failure_is_not_fatal(shutdown: bool)
    ensures
        next(WorkerState::Pinning, WorkerEvent::Pinned(false), shutdown) == next(
            WorkerState::Pinning,
            WorkerEvent::Pinned(true),
            shutdown,
        ),
        next(WorkerState::Pinning, WorkerEvent::Pinned(false), shutdown).1 == WorkerAction::Sweep,
{
}

/// No event makes a worker pin its thread again, so it is pinned once.
pub proof fn lemma_pinned_once(state: WorkerState, event: WorkerEvent, shutdown: bool)
    ensures
        !(next(state, event, shutdown).1 is Pin),
        next(state, event, shutdown).0 != WorkerState::Pinning,
{
}

/// A worker that sees the stop signal at the top of a pass makes that pass and
/// ends, whatever the pass finds and whatever the signal reads then.
pub proof fn lemma_stop_after_one_more_sweep(
    state: WorkerState,
    event: WorkerEvent,
    applied: usize,
    later: bool,
)
    requires
        next(state, event, true).1 == WorkerAction::Sweep,
        state != WorkerState::Stopped,
    ensures
        next(state, event, true).0 == WorkerState::ShuttingDown,
        next(WorkerState::ShuttingDown, WorkerEvent::Swept(applied), later) == (
            WorkerState::Stopped,
            WorkerAction::Exit,
        ),
{
}

/// A worker rests only after a pass that applied nothing.
pub proof fn lemma_rest_only_when_idle(state: WorkerState, event: WorkerEvent, shutdown: bool)
    requires
        next(state, event, shutdown).1 == WorkerAction::Idle,
    ensures
        state == WorkerState::Draining,
        event == WorkerEvent::Swept(0),
{
}

impl WorkerState {
    /// The state of a worker whose thread has just started, and the first
    /// thing it does: pin the thread to the core with the shard's number.
    pub fn begin(shard_id: usize) -> (first: (WorkerState, WorkerAction))
        ensures
            first == (WorkerState::Pinning, WorkerAction::Pin(CoreId { id: shard_id })),
    {
        (WorkerState::Pinning, WorkerAction::Pin(CoreId { id: shard_id }))
    }

    /// Computes [`next`].
    pub fn step(self, event: WorkerEvent, shutdown: bool) -> (then: (WorkerState, WorkerAction))
        ensures
            then == next(self, event, shutdown),
    {
        let top = if shutdown {
            (WorkerState::ShuttingDown, WorkerAction::Sweep)
        } else {
            (WorkerState::Draining, WorkerAction::Sweep)
        };
        match self {
            WorkerState::Pinning => top,
            WorkerState::Draining => match event {
                WorkerEvent::Swept(applied) => if applied == 0 {
                    (WorkerState::Draining, WorkerAction::Idle)
                } else {
                    top
                },
                _ => top,
            },
            WorkerState::ShuttingDown => match event {
                WorkerEvent::Swept(_) => (WorkerState::Stopped, WorkerAction::Exit),
                _ => (WorkerState::ShuttingDown, WorkerAction::Sweep),
            },
            WorkerState::Stopped => (WorkerState::Stopped, WorkerAction::Exit),
        }
    }
}

} // verus!
