use vstd::prelude::*;

use crate::queue::Dequeued;

verus! {

/// Where a worker stands in its loop.
#[derive(Clone, Copy, Debug, PartialEq, Eq, Structural)]
pub enum WorkerState {
    /// Waiting for the next job.
    Idle,
    /// Executing a job it claimed.
    Running,
    /// Saw the closed queue and left its loop for good.
    Stopped,
}

/// How a job ended, as observed at the worker boundary.
#[derive(Clone, Copy, Debug, PartialEq, Eq, Structural)]
pub enum JobOutcome {
    /// The job returned normally.
    Completed,
    /// The job raised a fault, which the worker caught.
    Faulted,
}

/// The state an idle worker moves to on what the queue handed it.
pub open spec fn state_after_dequeue<J>(d: Dequeued<J>) -> WorkerState {
    match d {
        Dequeued::Job(_) => WorkerState::Running,
        Dequeued::Empty => WorkerState::Idle,
        Dequeued::Closed => WorkerState::Stopped,
    }
}

impl WorkerState {
    /// Step of an idle worker that asked the queue for work.
    pub fn on_dequeued<J>(self, d: &Dequeued<J>) -> (r: WorkerState)
        requires
            self == WorkerState::Idle,
        ensures
            r == state_after_dequeue(*d),
    {
        match d {
            Dequeued::Job(_) => WorkerState::Running,
            Dequeued::Empty => WorkerState::Idle,
            Dequeued::Closed => WorkerState::Stopped,
        }
    }

    /// Step of a running worker whose job ended: it goes back to waiting,
    /// whether the job completed or faulted.
    pub fn on_job_done(self, outcome: JobOutcome) -> (r: WorkerState)
        requires
            self == WorkerState::Running,
        ensures
            r == WorkerState::Idle,
    {
        match outcome {
            JobOutcome::Completed => WorkerState::Idle,
            JobOutcome::Faulted => WorkerState::Idle,
        }
    }
}

} // verus!
