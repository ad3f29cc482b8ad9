//! The two-phase join of a ranged download.
//!
//! The coordinator first drains the workers' events until they add up to the
//! size of the resource. That alone does not make the artifacts safe to
//! read: a worker may have read its last byte and not yet stored it. So the
//! coordinator then waits at the barrier that every worker reaches after
//! storing, and only when it has passed does it join the artifacts.

use crate::fetch::ProgressEvent;
use crate::partition::WorkerId;
use crate::progress::{sum, ProgressAggregator, ProgressError};
use vstd::prelude::*;

verus! {

/// Where the coordinator of a ranged download stands.
#[derive(Debug, Clone, Copy, PartialEq, Eq)]
pub enum Phase {
    /// Events are still owed: the sum has not reached the size.
    Fetching,
    /// All bytes are reported; the artifacts may not all be stored yet.
    Joining,
    /// The barrier has been passed: every artifact is stored.
    Ready,
}

/// What the coordinator does next.
#[derive(Debug, Clone, Copy, PartialEq, Eq)]
pub enum Action {
    /// Take the next event from the workers.
    AwaitProgress,
    /// Wait at the barrier.
    AwaitBarrier,
    /// Join the artifacts.
    Reassemble,
}

/// The phase after an event was taken in, `complete` telling whether the
/// sum has reached the size: fetching ends when it has, and no later phase
/// is left.
pub open spec fn phase_after_progress(phase: Phase, complete: bool) -> Phase {
    match phase {
        Phase::Fetching => if complete {
            Phase::Joining
        } else {
            Phase::Fetching
        },
        Phase::Joining => Phase::Joining,
        Phase::Ready => Phase::Ready,
    }
}

/// The phase after the barrier was passed. A barrier passed while events
/// are still owed counts for nothing.
pub open spec fn phase_after_barrier(phase: Phase) -> Phase {
    match phase {
        Phase::Fetching => Phase::Fetching,
        Phase::Joining => Phase::Ready,
        Phase::Ready => Phase::Ready,
    }
}

/// What is done in a phase.
pub open spec fn action_in(phase: Phase) -> Action {
    match phase {
        Phase::Fetching => Action::AwaitProgress,
        Phase::Joining => Action::AwaitBarrier,
        Phase::Ready => Action::Reassemble,
    }
}

/// The artifacts are joined only after both: the events were drained, and
/// then the barrier was passed. Neither step alone, nor the two in the
/// other order, leads there from the start.
pub proof fn lemma_join_needs_both(complete: bool)
    ensures
        action_in(phase_after_progress(Phase::Fetching, complete)) != Action::Reassemble,
        action_in(phase_after_barrier(Phase::Fetching)) != Action::Reassemble,
        action_in(phase_after_progress(phase_after_barrier(Phase::Fetching), complete))
            != Action::Reassemble,
        action_in(phase_after_barrier(phase_after_progress(Phase::Fetching, complete)))
            == Action::Reassemble <==> complete,
{
}

/// The coordinator of a ranged download: the progress of the workers and
/// the phase of the join.
pub struct Coordinator {
    progress: ProgressAggregator,
    phase: Phase,
}

impl Coordinator {
    /// The progress is well kept, and while events are owed the sum is
    /// short of the size.
    pub closed spec fn wf(&self) -> bool {
        &&& self.progress.wf()
        &&& self.phase is Fetching ==> sum(self.progress.counts()) < self.progress.target()
    }

    /// The progress of the workers.
    pub closed spec fn aggregator(&self) -> ProgressAggregator {
        self.progress
    }

    /// The phase of the join.
    pub closed spec fn stage(&self) -> Phase {
        self.phase
    }

    /// A coordinator for `worker_count` workers that have read nothing of
    /// the `total_size` bytes yet. Where there is nothing to read, no event
    /// is owed.
    pub fn new(worker_count: WorkerId, total_size: u64) -> (coordinator: Coordinator)
        ensures
            coordinator.wf(),
            coordinator.aggregator().target() == total_size,
            coordinator.aggregator().counts() == Seq::new(worker_count as nat, |i: int| 0u64),
            sum(coordinator.aggregator().counts()) == 0,
            coordinator.stage() == phase_after_progress(Phase::Fetching, total_size == 0),
    {
        let progress: ProgressAggregator = ProgressAggregator::new(worker_count, total_size);
        let phase: Phase = if progress.is_complete() {
            Phase::Joining
        } else {
            Phase::Fetching
        };
        Coordinator { progress, phase }
    }

    /// Takes in one event as [`ProgressAggregator::record`] does, and ends
    /// the fetching once the sum has reached the size. An event that is
    /// refused changes nothing.
    pub fn on_progress(&mut self, event: ProgressEvent) -> (outcome: Result<u64, ProgressError>)
        requires
            old(self).wf(),
        ensures
            final(self).wf(),
            final(self).aggregator().target() == old(self).aggregator().target(),
            match outcome {
                Ok(downloaded) => {
                    &&& old(self).aggregator().knows(event.worker_id)
                    &&& final(self).aggregator().counts() == old(self).aggregator().counts().update(
                        event.worker_id - 1,
                        event.cumulative_bytes,
                    )
                    &&& downloaded == sum(final(self).aggregator().counts())
                    &&& final(self).stage() == phase_after_progress(
                        old(self).stage(),
                        downloaded >= old(self).aggregator().target(),
                    )
                },
                Err(ProgressError::UnknownWorker { worker_id }) => {
                    &&& !old(self).aggregator().knows(event.worker_id)
                    &&& worker_id == event.worker_id
                    &&& final(self).aggregator().counts() == old(self).aggregator().counts()
                    &&& final(self).stage() == old(self).stage()
                },
                Err(ProgressError::Overflow) => {
                    &&& old(self).aggregator().knows(event.worker_id)
                    &&& sum(
                        old(self).aggregator().counts().update(
                            event.worker_id - 1,
                            event.cumulative_bytes,
                        ),
                    ) > u64::MAX
                    &&& final(self).aggregator().counts() == old(self).aggregator().counts()
                    &&& final(self).stage() == old(self).stage()
                },
            },
    {
        let outcome: Result<u64, ProgressError> = self.progress.record(event);
        if outcome.is_ok() && self.progress.is_complete() {
            self.phase = match self.phase {
                Phase::Fetching => Phase::Joining,
                Phase::Joining => Phase::Joining,
                Phase::Ready => Phase::Ready,
            };
        }
        outcome
    }

    /// Notes that the barrier was passed.
    pub fn on_barrier(&mut self)
        requires
            old(self).wf(),
        ensures
            final(self).wf(),
            final(self).aggregator() == old(self).aggregator(),
            final(self).stage() == phase_after_barrier(old(self).stage()),
    {
        self.phase = match self.phase {
            Phase::Fetching => Phase::Fetching,
            Phase::Joining => Phase::Ready,
            Phase::Ready => Phase::Ready,
        };
    }

    /// What to do next. Events are awaited only while the sum is short of
    /// the size.
    pub fn next_action(&self) -> (action: Action)
        requires
            self.wf(),
        ensures
            action == action_in(self.stage()),
            action is AwaitProgress ==> sum(self.aggregator().counts())
                < self.aggregator().target(),
    {
        match self.phase {
            Phase::Fetching => Action::AwaitProgress,
            Phase::Joining => Action::AwaitBarrier,
            Phase::Ready => Action::Reassemble,
        }
    }

    /// The bytes that all workers together have read, as far as reported.
    pub fn downloaded(&self) -> (downloaded: u64)
        requires
            self.wf(),
        ensures
            downloaded == sum(self.aggregator().counts()),
    {
        self.progress.downloaded()
    }
}

} // verus!
