//! One worker: a numeric identity, the state of its fetch-execute loop, and the
//! handle by which the pool owner joins it exactly once.

use vstd::prelude::*;

verus! {

/// Where a worker stands in its fetch-execute loop.
#[derive(Clone, Copy, Debug, PartialEq, Eq, Structural)]
pub enum WorkerState {
    /// Waiting for the next job.
    Running,
    /// Running a job it has dequeued.
    Executing,
    /// Left its loop after it saw the queue closed and drained.
    Terminated,
    /// Ended abnormally because the job it was running panicked.
    Panicked,
}

/// What can happen to a worker.
#[derive(Clone, Copy, Debug, PartialEq, Eq, Structural)]
pub enum WorkerEvent {
    /// It dequeued a job.
    Dequeued,
    /// It saw the queue closed and drained.
    Closed,
    /// The job it was running returned.
    Completed,
    /// The job it was running panicked.
    Panicked,
}

/// How the job that a worker was running ended.
#[derive(Clone, Copy, Debug, PartialEq, Eq, Structural)]
pub enum JobOutcome {
    /// The job returned.
    Completed,
    /// The job panicked and took the worker's thread with it.
    Panicked,
}

/// What the pool owner learns when it joins a worker.
#[derive(Clone, Copy, Debug, PartialEq, Eq, Structural)]
pub enum JoinOutcome {
    /// The worker left its loop in the ordinary way.
    Stopped,
    /// The worker's thread ended abnormally.
    Panicked,
}

impl WorkerState {
    /// Whether the worker's thread has ended, in either way.
    pub open spec fn finished(self) -> bool {
        self is Terminated || self is Panicked
    }

    /// Whether `event` is a transition out of this state.
    pub open spec fn accepts(self, event: WorkerEvent) -> bool {
        match (self, event) {
            (WorkerState::Running, WorkerEvent::Dequeued) => true,
            (WorkerState::Running, WorkerEvent::Closed) => true,
            (WorkerState::Executing, WorkerEvent::Completed) => true,
            (WorkerState::Executing, WorkerEvent::Panicked) => true,
            _ => false,
        }
    }

    /// The state after `event`. An event that is no transition out of this
    /// state leaves it as it is.
    pub open spec fn after(self, event: WorkerEvent) -> WorkerState {
        match (self, event) {
            (WorkerState::Running, WorkerEvent::Dequeued) => WorkerState::Executing,
            (WorkerState::Running, WorkerEvent::Closed) => WorkerState::Terminated,
            (WorkerState::Executing, WorkerEvent::Completed) => WorkerState::Running,
            (WorkerState::Executing, WorkerEvent::Panicked) => WorkerState::Panicked,
            _ => self,
        }
    }

    /// What a join reports for a worker that ended in this state.
    pub open spec fn join_outcome(self) -> JoinOutcome
        recommends
            self.finished(),
    {
        if self is Terminated {
            JoinOutcome::Stopped
        } else {
            JoinOutcome::Panicked
        }
    }

    /// Whether the worker's thread has ended, in either way.
    pub fn is_finished(self) -> (finished: bool)
        ensures
            finished == self.finished(),
    {
        match self {
            WorkerState::Terminated => true,
            WorkerState::Panicked => true,
            _ => false,
        }
    }
}

impl JobOutcome {
    /// The event that a job ending this way is to the worker that ran it.
    pub open spec fn event(self) -> WorkerEvent {
        match self {
            JobOutcome::Completed => WorkerEvent::Completed,
            JobOutcome::Panicked => WorkerEvent::Panicked,
        }
    }

    /// The event that a job ending this way is to the worker that ran it.
    pub fn as_event(self) -> (event: WorkerEvent)
        ensures
            event == self.event(),
    {
        match self {
            JobOutcome::Completed => WorkerEvent::Completed,
            JobOutcome::Panicked => WorkerEvent::Panicked,
        }
    }
}

/// A worker as the pool owner holds it.
#[derive(Clone, Copy, Debug, PartialEq, Eq, Structural)]
pub struct Worker {
    /// The worker's number, fixed for its lifetime.
    pub id: usize,
    /// Where the worker stands in its loop.
    pub state: WorkerState,
    /// Whether the handle of the worker's thread is still there to be joined.
    pub joinable: bool,
}

impl Worker {
    /// A fresh worker: waiting for its first job, not yet joined.
    pub fn new(id: usize) -> (worker: Worker)
        ensures
            worker == (Worker { id, state: WorkerState::Running, joinable: true }),
    {
        Worker { id, state: WorkerState::Running, joinable: true }
    }

    /// Applies `event` to the worker's loop and returns whether it was a
    /// transition out of the state the worker was in.
    pub fn step(&mut self, event: WorkerEvent) -> (moved: bool)
        ensures
            moved == old(self).state.accepts(event),
            *final(self) == (Worker { state: old(self).state.after(event), ..*old(self) }),
    {
        match (self.state, event) {
            (WorkerState::Running, WorkerEvent::Dequeued) => {
                self.state = WorkerState::Executing;
                true
            },
            (WorkerState::Running, WorkerEvent::Closed) => {
                self.state = WorkerState::Terminated;
                true
            },
            (WorkerState::Executing, WorkerEvent::Completed) => {
                self.state = WorkerState::Running;
                true
            },
            (WorkerState::Executing, WorkerEvent::Panicked) => {
                self.state = WorkerState::Panicked;
                true
            },
            _ => false,
        }
    }

    /// Whether a join would return at once: the handle is still there and the
    /// thread has ended.
    pub open spec fn can_join(self) -> bool {
        self.joinable && self.state.finished()
    }

    /// Joins the worker if its thread has ended and nobody has joined it
    /// before: the handle is used up and the way the thread ended is
    /// reported. Otherwise nothing changes.
    pub fn join(&mut self) -> (outcome: Option<JoinOutcome>)
        ensures
            old(self).can_join() ==> outcome == Some(old(self).state.join_outcome())
                && *final(self) == (Worker { joinable: false, ..*old(self) }),
            !old(self).can_join() ==> outcome.is_none() && *final(self) == *old(self),
    {
        if self.joinable {
            match self.state {
                WorkerState::Terminated => {
                    self.joinable = false;
                    Some(JoinOutcome::Stopped)
                },
                WorkerState::Panicked => {
                    self.joinable = false;
                    Some(JoinOutcome::Panicked)
                },
                _ => None,
            }
        } else {
            None
        }
    }
}

} // verus!
