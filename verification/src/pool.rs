//! The worker pool: a fixed set of workers, one shared job queue, one dequeue
//! guard, and a shutdown that runs once.
//!
//! The pool is driven from outside. The owner calls [`ThreadPool::execute`]
//! and, when it is done, [`ThreadPool::shutdown`]. The thread of worker `id`
//! repeats [`ThreadPool::acquire`], [`ThreadPool::receive`], the job itself,
//! and [`ThreadPool::finish`]. Each call is one atomic step of the pool, and
//! maps to one operation of [`PoolState`].

use crate::model::{join_frontier, Execution, ExecutionStatus, JoinReport, PoolState, Step};
use crate::preserve::lemma_join_frontier;
use crate::queue::{JobQueue, Received};
use crate::worker::{JobOutcome, Worker, WorkerEvent, WorkerState};
use vstd::prelude::*;

verus! {

/// What became of a submitted job.
#[derive(Clone, Copy, Debug, PartialEq, Eq, Structural)]
pub enum Submission {
    /// The job is pending, to be handed to a worker.
    Queued,
    /// The shutdown had begun, or the thread of every worker had ended: the
    /// job was dropped and no worker will see it.
    Dropped,
}

/// How far one call of [`ThreadPool::shutdown`] came.
#[derive(Debug, PartialEq, Eq)]
pub struct Shutdown {
    /// One report for each worker that this call joined, in the order of the
    /// joins.
    pub reports: Vec<JoinReport>,
    /// The worker whose thread has to end before the shutdown can go on, or
    /// `None` when the shutdown is complete.
    pub waiting_on: Option<usize>,
}

/// A pool of workers over jobs of type `J`.
pub struct ThreadPool<J> {
    workers: Vec<Worker>,
    queue: JobQueue<J>,
    guard: Option<usize>,
    joined: usize,
    submitted: Ghost<Seq<J>>,
    executions: Ghost<Seq<Execution>>,
}

impl<J> View for ThreadPool<J> {
    type V = PoolState<J>;

    closed spec fn view(&self) -> PoolState<J> {
        PoolState {
            workers: self.workers@,
            queue: self.queue@.pending,
            accepting: self.queue@.open,
            guard: match self.guard {
                Some(g) => Some(g as int),
                None => None,
            },
            joined: self.joined as nat,
            submitted: self.submitted@,
            executions: self.executions@,
        }
    }
}

impl<J> ThreadPool<J> {
    /// Whether the pool is in a state that a pool can reach.
    pub open spec fn wf(&self) -> bool {
        self@.inv()
    }

    /// A pool of `size` workers, numbered from 0, all waiting for a job.
    pub fn new(size: usize) -> (pool: Self)
        requires
            size > 0,
        ensures
            pool.wf(),
            pool@ == PoolState::<J>::init(size as nat),
    {
        let mut workers: Vec<Worker> = Vec::with_capacity(size);
        let mut id: usize = 0;
        while id < size
            invariant
                id <= size,
                workers@.len() == id,
                forall|i: int|
                    0 <= i < id ==> #[trigger] workers@[i] == (Worker {
                        id: i as usize,
                        state: WorkerState::Running,
                        joinable: true,
                    }),
            decreases size - id,
        {
            workers.push(Worker::new(id));
            id += 1;
        }
        let pool = ThreadPool {
            workers,
            queue: JobQueue::new(),
            guard: None,
            joined: 0,
            submitted: Ghost(Seq::empty()),
            executions: Ghost(Seq::empty()),
        };
        proof {
            PoolState::<J>::lemma_init_inv(size as nat);
            assert(pool@.workers =~= PoolState::<J>::init(size as nat).workers);
        }
        pool
    }

    /// Whether the thread of some worker has not ended.
    pub fn has_live_worker(&self) -> (live: bool)
        ensures
            live == self@.has_live_worker(),
    {
        let mut id: usize = 0;
        while id < self.workers.len()
            invariant
                id <= self.workers.len(),
                forall|i: int| 0 <= i < id ==> (#[trigger] self.workers@[i]).state.finished(),
            decreases self.workers.len() - id,
        {
            if !self.workers[id].state.is_finished() {
                return true;
            }
            id += 1;
        }
        false
    }

    /// Submits `job` and returns at once. The job is enqueued behind every
    /// pending job. Once the shutdown has begun, or once the thread of every
    /// worker has ended, so that nobody is left to take a job, it is dropped
    /// instead: the pool stays as it is, and the result says so.
    pub fn execute(&mut self, job: J) -> (submission: Submission)
        requires
            old(self).wf(),
        ensures
            final(self).wf(),
            final(self)@ == old(self)@.execute(job),
            submission == (if old(self)@.takes_jobs() {
                Submission::Queued
            } else {
                Submission::Dropped
            }),
    {
        let ghost queued = job;
        proof {
            self@.lemma_execute_inv(job);
        }
        if self.has_live_worker() && self.queue.submit(job) {
            self.submitted = Ghost(self.submitted@.push(queued));
            Submission::Queued
        } else {
            Submission::Dropped
        }
    }

    /// Worker `id` asks for the dequeue guard and gets it if it is a worker of
    /// this pool that waits for a job and no worker holds the guard.
    /// Returns whether it got the guard; if not, nothing changes.
    pub fn acquire(&mut self, id: usize) -> (acquired: bool)
        requires
            old(self).wf(),
        ensures
            final(self).wf(),
            final(self)@ == old(self)@.acquire(id as int),
            acquired == old(self)@.can_acquire(id as int),
    {
        proof {
            self@.lemma_acquire_inv(id as int);
        }
        if id < self.workers.len() && self.guard.is_none() {
            match self.workers[id].state {
                WorkerState::Running => {
                    self.guard = Some(id);
                    true
                },
                _ => false,
            }
        } else {
            false
        }
    }

    /// Worker `id` asks the queue for a job. Only the holder of the dequeue
    /// guard gets one; any other caller is told to wait and nothing changes.
    ///
    /// With a job pending, the holder gets the oldest one and the guard is
    /// released before the job starts. With nothing pending, the holder
    /// waits, still holding the guard, while jobs can be submitted; once the
    /// shutdown has begun it releases the guard and leaves its loop.
    pub fn receive(&mut self, id: usize) -> (step: Step<J>)
        requires
            old(self).wf(),
        ensures
            final(self).wf(),
            final(self)@ == old(self)@.receive(id as int),
            step == old(self)@.received(id as int),
    {
        proof {
            self@.lemma_receive_inv(id as int);
        }
        match self.guard {
            Some(holder) => {
                if holder != id {
                    return Step::Wait;
                }
            },
            None => {
                return Step::Wait;
            },
        }
        match self.queue.receive() {
            Received::Job(job) => {
                let mut worker = self.workers[id];
                worker.step(WorkerEvent::Dequeued);
                self.workers.set(id, worker);
                self.guard = None;
                self.executions = Ghost(
                    self.executions@.push(
                        Execution { worker: id as int, status: ExecutionStatus::InFlight },
                    ),
                );
                Step::Execute(job)
            },
            Received::Empty => Step::Wait,
            Received::Closed => {
                let mut worker = self.workers[id];
                worker.step(WorkerEvent::Closed);
                self.workers.set(id, worker);
                self.guard = None;
                Step::Exit
            },
        }
    }

    /// The job that worker `id` was running has ended with `outcome`: the
    /// worker goes back to waiting, or is lost if the job panicked.
    /// Returns whether the worker was running a job; if not, nothing changes.
    pub fn finish(&mut self, id: usize, outcome: JobOutcome) -> (ended: bool)
        requires
            old(self).wf(),
        ensures
            final(self).wf(),
            final(self)@ == old(self)@.finish(id as int, outcome),
            ended == old(self)@.executing(id as int),
    {
        proof {
            self@.lemma_finish_inv(id as int, outcome);
        }
        if id >= self.workers.len() {
            return false;
        }
        let ghost before = self@;
        let mut worker = self.workers[id];
        match worker.state {
            WorkerState::Executing => {
                worker.step(outcome.as_event());
                self.workers.set(id, worker);
                self.executions = Ghost(before.finish(id as int, outcome).executions);
                true
            },
            _ => false,
        }
    }

    /// Tears the pool down as far as that goes without waiting.
    ///
    /// The producer handle is given up, so that no job is accepted any more;
    /// pending jobs stay deliverable. Then the workers are joined in the order
    /// of their numbers, starting where the last call stopped, up to the first
    /// one whose thread has not ended. The result holds a report for each
    /// join and names the worker to wait for. On a pool that is shut down
    /// already the call changes nothing and reports nothing.
    pub fn shutdown(&mut self) -> (progress: Shutdown)
        requires
            old(self).wf(),
        ensures
            final(self).wf(),
            final(self)@ == old(self)@.shutdown(),
            progress.reports@ == old(self)@.shutdown_reports(),
            progress.waiting_on == final(self)@.waiting_on(),
    {
        let ghost before = self@;
        proof {
            before.lemma_shutdown_inv();
            lemma_join_frontier(before.workers, before.joined);
        }
        self.queue.close_producer();
        let mut reports: Vec<JoinReport> = Vec::new();
        while self.joined < self.workers.len() && self.workers[self.joined].state.is_finished()
            invariant
                before.inv(),
                before.joined <= self.joined <= self.workers.len(),
                self.workers@.len() == before.workers.len(),
                join_frontier_from(before, self.joined as nat),
                forall|i: int|
                    0 <= i < self.workers.len() ==> #[trigger] self.workers@[i] == (if before.joined
                        <= i < self.joined {
                        Worker { joinable: false, ..before.workers[i] }
                    } else {
                        before.workers[i]
                    }),
                reports@.len() == self.joined - before.joined,
                forall|j: int|
                    0 <= j < reports@.len() ==> #[trigger] reports@[j] == (JoinReport {
                        worker: before.workers[before.joined + j].id,
                        outcome: before.workers[before.joined + j].state.join_outcome(),
                    }),
                self.queue@.pending == before.queue,
                !self.queue@.open,
                self@.guard == before.guard,
                self.submitted@ == before.submitted,
                self.executions@ == before.executions,
            decreases self.workers.len() - self.joined,
        {
            proof {
                lemma_join_frontier(before.workers, (self.joined + 1) as nat);
            }
            let mut worker = self.workers[self.joined];
            if let Some(outcome) = worker.join() {
                reports.push(JoinReport { worker: worker.id, outcome });
            }
            self.workers.set(self.joined, worker);
            self.joined += 1;
        }
        let waiting_on = if self.joined < self.workers.len() {
            Some(self.workers[self.joined].id)
        } else {
            None
        };
        assert(self@.workers =~= before.shutdown().workers);
        Shutdown { reports, waiting_on }
    }

    /// The number of workers.
    pub fn size(&self) -> (size: usize)
        ensures
            size == self@.workers.len(),
    {
        self.workers.len()
    }

    /// The number of pending jobs.
    pub fn pending(&self) -> (pending: usize)
        ensures
            pending == self@.queue.len(),
    {
        self.queue.len()
    }

    /// Whether the producer handle is still there: the shutdown has not begun.
    pub fn is_accepting(&self) -> (accepting: bool)
        ensures
            accepting == self@.accepting,
    {
        self.queue.is_open()
    }

    /// The worker that holds the dequeue guard, if any does.
    pub fn guard_holder(&self) -> (holder: Option<usize>)
        ensures
            holder matches Some(id) ==> self@.guard == Some(id as int),
            holder is None ==> self@.guard is None,
    {
        self.guard
    }

    /// How many workers the owner has joined.
    pub fn joined(&self) -> (joined: usize)
        ensures
            joined == self@.joined,
    {
        self.joined
    }

    /// Worker `id` as it stands, or `None` if the pool has no such worker.
    pub fn worker(&self, id: usize) -> (worker: Option<Worker>)
        ensures
            id < self@.workers.len() ==> worker == Some(self@.workers[id as int]),
            id >= self@.workers.len() ==> worker is None,
    {
        if id < self.workers.len() {
            Some(self.workers[id])
        } else {
            None
        }
    }

    /// Whether the shutdown is complete: the producer handle is gone and every
    /// worker has been joined.
    pub fn is_shut_down(&self) -> (done: bool)
        ensures
            done == self@.shut_down(),
    {
        !self.queue.is_open() && self.joined == self.workers.len()
    }
}

/// Whether the joins that start at `from` end where those of `state` end.
spec fn join_frontier_from<J>(state: PoolState<J>, from: nat) -> bool {
    join_frontier(state.workers, from) == state.frontier()
}

} // verus!
