//! The pool as a state machine over mathematical values.
//!
//! A [`PoolState`] holds everything that the workers and the owner share, and
//! beside it the history of the pool: every job that was accepted, and for
//! each job that a worker dequeued, which worker that was and how the run
//! ended. Each operation of the pool is a function from state to state here;
//! the executable pool is specified by these functions.

use crate::worker::{JobOutcome, JoinOutcome, Worker, WorkerEvent, WorkerState};
use vstd::prelude::*;

verus! {

/// How far the run of one dequeued job has come.
pub enum ExecutionStatus {
    /// A worker is running the job.
    InFlight,
    /// The job returned.
    Completed,
    /// The job panicked.
    Panicked,
}

/// The run of one dequeued job.
pub struct Execution {
    /// The worker that dequeued the job.
    pub worker: int,
    /// How far the run has come.
    pub status: ExecutionStatus,
}

/// What the owner learns about one worker at shutdown.
#[derive(Clone, Copy, Debug, PartialEq, Eq, Structural)]
pub struct JoinReport {
    /// The worker that was joined.
    pub worker: usize,
    /// How its thread had ended.
    pub outcome: JoinOutcome,
}

/// What a worker that holds the dequeue guard gets from the queue.
#[derive(Debug, PartialEq, Eq)]
pub enum Step<J> {
    /// A job to run. The guard is released before the job starts.
    Execute(J),
    /// Nothing to do yet: the worker keeps waiting.
    Wait,
    /// The queue is closed and drained: the worker leaves its loop.
    Exit,
}

/// One thing that can happen to a pool.
pub enum PoolEvent<J> {
    /// The owner submits a job.
    Execute(J),
    /// A worker asks for the dequeue guard.
    Acquire(int),
    /// A worker asks the queue for a job.
    Receive(int),
    /// The job that a worker was running ends.
    Finish(int, JobOutcome),
    /// The owner tears the pool down, as far as that goes without waiting.
    Shutdown,
}

/// The state of a pool, with its history.
pub struct PoolState<J> {
    /// The workers, in the order of their numbers.
    pub workers: Seq<Worker>,
    /// The pending jobs, oldest first.
    pub queue: Seq<J>,
    /// Whether the producer handle is still there: the shutdown has not begun.
    pub accepting: bool,
    /// The worker that holds the dequeue guard, if any does.
    pub guard: Option<int>,
    /// How many workers the owner has joined; it joins them in order.
    pub joined: nat,
    /// Every job that was accepted, in the order of submission.
    pub submitted: Seq<J>,
    /// The runs of the jobs dequeued so far: `executions[k]` is the run of
    /// `submitted[k]`.
    pub executions: Seq<Execution>,
}

impl JobOutcome {
    /// The status of a run that ended this way.
    pub open spec fn status(self) -> ExecutionStatus {
        match self {
            JobOutcome::Completed => ExecutionStatus::Completed,
            JobOutcome::Panicked => ExecutionStatus::Panicked,
        }
    }
}

/// The first worker from `from` on whose thread has not ended, or the number
/// of workers if there is none: the point up to which the owner can join
/// without waiting.
pub open spec fn join_frontier(workers: Seq<Worker>, from: nat) -> nat
    decreases workers.len() - from,
{
    if from < workers.len() && workers[from as int].state.finished() {
        join_frontier(workers, from + 1)
    } else {
        from
    }
}

impl<J> PoolState<J> {
    // ----- the operations -----

    /// A new pool of `size` workers: all waiting, nothing pending, nothing
    /// submitted yet.
    pub open spec fn init(size: nat) -> Self {
        PoolState {
            workers: Seq::new(
                size,
                |i: int| Worker { id: i as usize, state: WorkerState::Running, joinable: true },
            ),
            queue: Seq::empty(),
            accepting: true,
            guard: None,
            joined: 0,
            submitted: Seq::empty(),
            executions: Seq::empty(),
        }
    }

    /// Whether the thread of some worker has not ended, so that the consumer
    /// side of the queue is still there.
    pub open spec fn has_live_worker(self) -> bool {
        exists|i: int|
            0 <= i < self.workers.len() && !(#[trigger] self.workers[i]).state.finished()
    }

    /// Whether a job that is submitted now is enqueued: the producer handle
    /// is there, and so is a worker to take the job.
    pub open spec fn takes_jobs(self) -> bool {
        self.accepting && self.has_live_worker()
    }

    /// The owner submits `job`: it is enqueued while the pool takes jobs, and
    /// dropped without any effect once the producer handle is gone or the
    /// thread of every worker has ended.
    pub open spec fn execute(self, job: J) -> Self {
        if self.takes_jobs() {
            PoolState {
                queue: self.queue.push(job),
                submitted: self.submitted.push(job),
                ..self
            }
        } else {
            self
        }
    }

    /// Whether worker `id` gets the dequeue guard if it asks now: it is a
    /// worker of this pool, it is waiting for a job, and the guard is free.
    pub open spec fn can_acquire(self, id: int) -> bool {
        &&& 0 <= id < self.workers.len()
        &&& self.workers[id].state is Running
        &&& self.guard is None
    }

    /// Worker `id` asks for the dequeue guard.
    pub open spec fn acquire(self, id: int) -> Self {
        if self.can_acquire(id) {
            PoolState { guard: Some(id), ..self }
        } else {
            self
        }
    }

    /// What worker `id` gets when it asks the queue for a job.
    pub open spec fn received(self, id: int) -> Step<J> {
        if self.guard != Some(id) {
            Step::Wait
        } else if self.queue.len() > 0 {
            Step::Execute(self.queue[0])
        } else if self.accepting {
            Step::Wait
        } else {
            Step::Exit
        }
    }

    /// Worker `id` asks the queue for a job. Only the holder of the guard gets
    /// an answer. With a job pending it takes the oldest one, releases the
    /// guard and starts to execute. With nothing pending it keeps the guard and
    /// waits while the producer is there, and otherwise releases the guard and
    /// terminates.
    pub open spec fn receive(self, id: int) -> Self {
        if self.guard != Some(id) {
            self
        } else if self.queue.len() > 0 {
            PoolState {
                workers: self.workers.update(
                    id,
                    Worker {
                        state: self.workers[id].state.after(WorkerEvent::Dequeued),
                        ..self.workers[id]
                    },
                ),
                queue: self.queue.skip(1),
                guard: None,
                executions: self.executions.push(
                    Execution { worker: id, status: ExecutionStatus::InFlight },
                ),
                ..self
            }
        } else if self.accepting {
            self
        } else {
            PoolState {
                workers: self.workers.update(
                    id,
                    Worker {
                        state: self.workers[id].state.after(WorkerEvent::Closed),
                        ..self.workers[id]
                    },
                ),
                guard: None,
                ..self
            }
        }
    }

    /// Whether worker `id` is running a job.
    pub open spec fn executing(self, id: int) -> bool {
        0 <= id < self.workers.len() && self.workers[id].state is Executing
    }

    /// The job that worker `id` was running ends with `outcome`. The worker
    /// goes back to waiting after a job that returned, and is lost after one
    /// that panicked. For a worker that is not running a job nothing changes.
    pub open spec fn finish(self, id: int, outcome: JobOutcome) -> Self {
        if self.executing(id) {
            PoolState {
                workers: self.workers.update(
                    id,
                    Worker {
                        state: self.workers[id].state.after(outcome.event()),
                        ..self.workers[id]
                    },
                ),
                executions: Seq::new(
                    self.executions.len(),
                    |k: int|
                        if self.runs(id, k) {
                            Execution { worker: id, status: outcome.status() }
                        } else {
                            self.executions[k]
                        },
                ),
                ..self
            }
        } else {
            self
        }
    }

    /// The number of workers joined once the owner has joined every worker
    /// that it can join without waiting.
    pub open spec fn frontier(self) -> nat {
        join_frontier(self.workers, self.joined)
    }

    /// The owner tears the pool down as far as that goes without waiting: it
    /// gives up the producer handle, then joins the workers in the order of
    /// their numbers, from where it stopped the last time up to the first
    /// one whose thread has not ended.
    pub open spec fn shutdown(self) -> Self {
        PoolState {
            workers: Seq::new(
                self.workers.len(),
                |i: int|
                    if self.joined <= i < self.frontier() {
                        Worker { joinable: false, ..self.workers[i] }
                    } else {
                        self.workers[i]
                    },
            ),
            accepting: false,
            joined: self.frontier(),
            ..self
        }
    }

    /// What the joins of one [`PoolState::shutdown`] report, in the order in
    /// which they are made.
    pub open spec fn shutdown_reports(self) -> Seq<JoinReport> {
        Seq::new(
            (self.frontier() - self.joined) as nat,
            |j: int|
                JoinReport {
                    worker: self.workers[self.joined + j].id,
                    outcome: self.workers[self.joined + j].state.join_outcome(),
                },
        )
    }

    /// The worker that the owner has to wait for before the shutdown can go
    /// on, if there is one.
    pub open spec fn waiting_on(self) -> Option<usize> {
        if self.joined < self.workers.len() {
            Some(self.workers[self.joined as int].id)
        } else {
            None
        }
    }

    /// The state after `event`.
    pub open spec fn next(self, event: PoolEvent<J>) -> Self {
        match event {
            PoolEvent::Execute(job) => self.execute(job),
            PoolEvent::Acquire(id) => self.acquire(id),
            PoolEvent::Receive(id) => self.receive(id),
            PoolEvent::Finish(id, outcome) => self.finish(id, outcome),
            PoolEvent::Shutdown => self.shutdown(),
        }
    }

    /// The state after all of `events`, in their order.
    pub open spec fn run(self, events: Seq<PoolEvent<J>>) -> Self
        decreases events.len(),
    {
        if events.len() == 0 {
            self
        } else {
            self.run(events.drop_last()).next(events.last())
        }
    }

    // ----- what is true of a state -----

    /// Whether `executions[k]` is a job that worker `id` is running now.
    pub open spec fn runs(self, id: int, k: int) -> bool {
        &&& 0 <= k < self.executions.len()
        &&& self.executions[k].worker == id
        &&& self.executions[k].status is InFlight
    }

    /// Whether the shutdown is complete: the producer handle is gone and every
    /// worker has been joined.
    pub open spec fn shut_down(self) -> bool {
        !self.accepting && self.joined == self.workers.len()
    }

    /// Whether a job has panicked in this pool. A worker whose job panicked
    /// stays in that state for good.
    pub open spec fn has_panicked(self) -> bool {
        exists|i: int| 0 <= i < self.workers.len() && (#[trigger] self.workers[i]).state is Panicked
    }

    /// The workers are numbered by their place.
    pub open spec fn workers_inv(self) -> bool {
        &&& self.workers.len() >= 1
        &&& forall|i: int| 0 <= i < self.workers.len() ==> (#[trigger] self.workers[i]).id == i
    }

    /// The holder of the guard is a worker that waits for a job.
    pub open spec fn guard_inv(self) -> bool {
        self.guard matches Some(g) ==> 0 <= g < self.workers.len()
            && self.workers[g].state is Running
    }

    /// The owner joins only after it gave up the producer handle, in order,
    /// and only workers whose threads have ended; a handle is used up exactly
    /// when its worker was joined.
    pub open spec fn join_inv(self) -> bool {
        &&& self.joined <= self.workers.len()
        &&& self.joined > 0 ==> !self.accepting
        &&& forall|i: int|
            0 <= i < self.workers.len() ==> ((#[trigger] self.workers[i]).joinable <==> i
                >= self.joined)
        &&& forall|i: int| 0 <= i < self.joined ==> (#[trigger] self.workers[i]).state.finished()
    }

    /// A worker terminates only when the producer handle is gone and the queue
    /// is drained.
    pub open spec fn exit_inv(self) -> bool {
        forall|i: int|
            0 <= i < self.workers.len() && (#[trigger] self.workers[i]).state is Terminated
                ==> !self.accepting && self.queue.len() == 0
    }

    /// The jobs are dequeued in the order of submission, each at most once:
    /// what is pending is what was submitted less what was dequeued.
    pub open spec fn order_inv(self) -> bool {
        &&& self.executions.len() <= self.submitted.len()
        &&& self.queue == self.submitted.skip(self.executions.len() as int)
    }

    /// Each run belongs to one worker of the pool, and the state of that
    /// worker agrees with it: a job in flight has a worker that is executing
    /// it and nothing else, a worker that is executing has its job in flight,
    /// and a job that panicked has left its worker panicked.
    pub open spec fn runs_inv(self) -> bool {
        &&& forall|k: int|
            0 <= k < self.executions.len() ==> 0 <= (#[trigger] self.executions[k]).worker
                < self.workers.len()
        &&& forall|k: int|
            0 <= k < self.executions.len() && (#[trigger] self.executions[k]).status is InFlight
                ==> self.workers[self.executions[k].worker].state is Executing
        &&& forall|k: int|
            0 <= k < self.executions.len() && (#[trigger] self.executions[k]).status is Panicked
                ==> self.workers[self.executions[k].worker].state is Panicked
        &&& forall|id: int, k1: int, k2: int|
            #![trigger self.runs(id, k1), self.runs(id, k2)]
            self.runs(id, k1) && self.runs(id, k2) ==> k1 == k2
        &&& forall|i: int|
            0 <= i < self.workers.len() && (#[trigger] self.workers[i]).state is Executing
                ==> exists|k: int| self.runs(i, k)
    }

    /// What holds of every state that a pool can reach.
    pub open spec fn inv(self) -> bool {
        &&& self.workers_inv()
        &&& self.guard_inv()
        &&& self.join_inv()
        &&& self.exit_inv()
        &&& self.order_inv()
        &&& self.runs_inv()
    }
}

} // verus!
