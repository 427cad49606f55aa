//! What holds of every pool, whatever the order in which the owner and the
//! workers take their steps.

use crate::model::{JoinReport, PoolEvent, PoolState, Step};
use crate::preserve::lemma_join_frontier;
use crate::worker::{WorkerEvent, WorkerState};
use vstd::prelude::*;

verus! {

/// Whether a shutdown is among `events`.
pub open spec fn shutdown_begun<J>(events: Seq<PoolEvent<J>>) -> bool {
    exists|i: int| 0 <= i < events.len() && #[trigger] events[i] is Shutdown
}

/// The jobs that `events` offer to the pool before the first shutdown among
/// them, in their order.
pub open spec fn jobs_offered<J>(events: Seq<PoolEvent<J>>) -> Seq<J>
    decreases events.len(),
{
    if events.len() == 0 {
        Seq::empty()
    } else {
        match events.last() {
            PoolEvent::Execute(job) if !shutdown_begun(events.drop_last()) => jobs_offered(
                events.drop_last(),
            ).push(job),
            _ => jobs_offered(events.drop_last()),
        }
    }
}

/// The jobs among those offered that a new pool of `size` workers accepts:
/// those that come while the thread of some worker has not ended.
pub open spec fn jobs_submitted<J>(size: nat, events: Seq<PoolEvent<J>>) -> Seq<J>
    decreases events.len(),
{
    if events.len() == 0 {
        Seq::empty()
    } else {
        match events.last() {
            PoolEvent::Execute(job) if !shutdown_begun(events.drop_last()) && PoolState::<
                J,
            >::init(size).run(events.drop_last()).has_live_worker() => jobs_submitted(
                size,
                events.drop_last(),
            ).push(job),
            _ => jobs_submitted(size, events.drop_last()),
        }
    }
}

/// Every state that a new pool of at least one worker reaches is valid.
pub proof fn law_reachable_states_are_valid<J>(size: nat, events: Seq<PoolEvent<J>>)
    requires
        1 <= size <= usize::MAX,
    ensures
        PoolState::<J>::init(size).run(events).inv(),
{
    PoolState::<J>::lemma_init_inv(size);
    PoolState::<J>::init(size).lemma_run_inv(events);
}

/// The producer handle of a pool is there until its first shutdown and
/// never again, and the history of submissions holds exactly the jobs that
/// were offered until then while a worker was left to take them.
pub proof fn law_accepts_until_shutdown<J>(size: nat, events: Seq<PoolEvent<J>>)
    requires
        1 <= size <= usize::MAX,
    ensures
        PoolState::<J>::init(size).run(events).accepting == !shutdown_begun(events),
        PoolState::<J>::init(size).run(events).submitted == jobs_submitted(size, events),
        PoolState::<J>::init(size).run(events).workers.len() == size,
    decreases events.len(),
{
    if events.len() > 0 {
        let earlier = events.drop_last();
        law_accepts_until_shutdown::<J>(size, earlier);
        law_reachable_states_are_valid::<J>(size, earlier);
        if !shutdown_begun(earlier) && !(events.last() is Shutdown) {
            assert forall|i: int| 0 <= i < events.len() implies !(#[trigger] events[i] is Shutdown) by {
                if i < earlier.len() {
                    assert(earlier[i] == events[i]);
                }
            }
        }
    }
}

/// While no job has panicked no job is refused before the shutdown: every
/// job offered until then is accepted.
pub proof fn law_nothing_is_refused_without_panic<J>(size: nat, events: Seq<PoolEvent<J>>)
    requires
        1 <= size <= usize::MAX,
        !PoolState::<J>::init(size).run(events).has_panicked(),
    ensures
        jobs_submitted(size, events) == jobs_offered(events),
    decreases events.len(),
{
    if events.len() > 0 {
        let earlier = events.drop_last();
        let before = PoolState::<J>::init(size).run(earlier);
        law_reachable_states_are_valid::<J>(size, earlier);
        law_accepts_until_shutdown::<J>(size, earlier);
        if before.has_panicked() {
            before.law_panic_is_for_good(events.last());
        }
        law_nothing_is_refused_without_panic::<J>(size, earlier);
        if !shutdown_begun(earlier) {
            // No worker has left or panicked: the first one is still there.
            assert(!before.workers[0].state.finished());
        }
    }
}

/// Every job runs exactly once: when the shutdown of a pool of any size is
/// complete and no job has panicked, the jobs that were run are the jobs
/// that were offered before the shutdown began, one run for each, in the
/// order of submission, and each run has returned.
pub proof fn law_every_job_runs_exactly_once<J>(size: nat, events: Seq<PoolEvent<J>>)
    requires
        1 <= size <= usize::MAX,
        PoolState::<J>::init(size).run(events).shut_down(),
        !PoolState::<J>::init(size).run(events).has_panicked(),
    ensures
        ({
            let end = PoolState::<J>::init(size).run(events);
            &&& end.submitted == jobs_offered(events)
            &&& end.executions.len() == end.submitted.len()
            &&& end.queue.len() == 0
            &&& forall|k: int|
                0 <= k < end.executions.len() ==> (#[trigger] end.executions[k]).status is Completed
        }),
{
    let end = PoolState::<J>::init(size).run(events);
    law_reachable_states_are_valid::<J>(size, events);
    law_accepts_until_shutdown::<J>(size, events);
    law_nothing_is_refused_without_panic::<J>(size, events);
    end.law_no_worker_outlives_shutdown();
    assert(end.workers[0].state.finished());
}

impl<J> PoolState<J> {
    /// No job runs twice and none is lost: at any moment the jobs dequeued so
    /// far and the jobs still pending are, in this order, the jobs submitted.
    /// The job that a worker receives is the oldest one not yet dequeued, and
    /// it becomes the next run.
    pub proof fn law_jobs_leave_in_order(self, id: int)
        requires
            self.inv(),
        ensures
            self.executions.len() + self.queue.len() == self.submitted.len(),
            forall|k: int|
                0 <= k < self.queue.len() ==> #[trigger] self.queue[k] == self.submitted[
                    self.executions.len() + k],
            self.received(id) matches Step::Execute(job) ==> {
                &&& job == self.submitted[self.executions.len() as int]
                &&& self.receive(id).executions.len() == self.executions.len() + 1
                &&& self.receive(id).runs(id, self.executions.len() as int)
            },
            !(self.received(id) is Execute) ==> self.receive(id).executions == self.executions,
    {
    }

    /// The dequeue is exclusive. Only the holder of the guard takes a job
    /// from the queue; while one worker holds the guard no other one gets it;
    /// and the holder is a worker that waits for a job, never one that is
    /// running a job or whose job panicked, so the guard is not held across
    /// a run and no panic leaves it held.
    pub proof fn law_dequeue_is_exclusive(self, id: int, other: int)
        requires
            self.inv(),
            self.guard == Some(id),
            other != id,
        ensures
            self.acquire(other) == self,
            self.receive(other) == self,
            self.received(other) == Step::<J>::Wait,
            self.workers[id].state is Running,
            self.acquire(id).guard == Some(id),
    {
    }

    /// Jobs run side by side. A waiting worker gets the guard whenever it is
    /// free and takes a pending job, however many other workers are running
    /// jobs at that moment; they keep running, and the guard is free again
    /// at once for the next worker.
    pub proof fn law_jobs_run_side_by_side(self, id: int)
        requires
            self.inv(),
            self.can_acquire(id),
            self.queue.len() > 0,
        ensures
            ({
                let after = self.acquire(id).receive(id);
                &&& self.acquire(id).received(id) == Step::Execute(self.queue[0])
                &&& after.executing(id)
                &&& after.guard is None
                &&& forall|i: int| self.executing(i) ==> after.executing(i)
                &&& forall|i: int|
                    0 <= i < self.workers.len() && i != id ==> #[trigger] after.workers[i]
                        == self.workers[i]
            }),
    {
    }

    /// Shutdown is idempotent: a second shutdown right after the first one
    /// joins no worker, reports nothing and leaves the pool as it is.
    pub proof fn law_shutdown_is_idempotent(self)
        requires
            self.inv(),
        ensures
            self.shutdown().shutdown() == self.shutdown(),
            self.shutdown().shutdown_reports() == Seq::<JoinReport>::empty(),
            self.shut_down() ==> self.shutdown() == self,
    {
        lemma_join_frontier(self.workers, self.joined);
        let once = self.shutdown();
        assert(once.shutdown().workers =~= once.workers);
        if self.shut_down() {
            assert(self.shutdown().workers =~= self.workers);
        }
    }

    /// No worker outlives the shutdown: once it is complete, the thread of
    /// every worker has ended, every handle is used up, no worker holds the
    /// guard and no job is in flight.
    pub proof fn law_no_worker_outlives_shutdown(self)
        requires
            self.inv(),
            self.shut_down(),
        ensures
            forall|i: int|
                0 <= i < self.workers.len() ==> (#[trigger] self.workers[i]).state.finished()
                    && !self.workers[i].joinable,
            self.guard is None,
            forall|i: int| !self.executing(i),
            forall|k: int|
                0 <= k < self.executions.len() ==> !((#[trigger] self.executions[k]).status is InFlight),
    {
    }

    /// A job submitted when the thread of every worker has ended is dropped:
    /// the pool stays exactly as it is, whether or not the shutdown has
    /// begun, and it stays so for good, since no worker comes back.
    pub proof fn law_submission_without_workers_is_dropped(self, job: J, event: PoolEvent<J>)
        requires
            self.inv(),
            !self.has_live_worker(),
        ensures
            self.execute(job) == self,
            !self.takes_jobs(),
            !self.next(event).has_live_worker(),
    {
        let after = self.next(event);
        if after.has_live_worker() {
            let i = choose|i: int|
                0 <= i < after.workers.len() && !(#[trigger] after.workers[i]).state.finished();
            self.law_finished_is_absorbing(event, i);
        }
    }

    /// A panic is for good: once a job has panicked in a pool, the pool
    /// stays one in which a job has panicked.
    pub proof fn law_panic_is_for_good(self, event: PoolEvent<J>)
        requires
            self.inv(),
            self.has_panicked(),
        ensures
            self.next(event).has_panicked(),
    {
        let i = choose|i: int|
            0 <= i < self.workers.len() && (#[trigger] self.workers[i]).state is Panicked;
        self.law_finished_is_absorbing(event, i);
    }

    /// A job submitted after the shutdown began is dropped: the pool stays
    /// exactly as it is, so the job is neither pending nor in its history,
    /// and no worker will receive it. The pool never accepts a job again.
    pub proof fn law_late_submission_is_dropped(self, job: J, event: PoolEvent<J>)
        requires
            !self.accepting,
        ensures
            self.execute(job) == self,
            !self.next(event).accepting,
            self.next(event).submitted == self.submitted,
    {
    }

    /// A worker whose thread has ended stays as it is, but for the use of
    /// its handle: whatever happens to the pool, a terminated worker stays
    /// terminated and a panicked one panicked.
    pub proof fn law_finished_is_absorbing(self, event: PoolEvent<J>, i: int)
        requires
            self.inv(),
            0 <= i < self.workers.len(),
            self.workers[i].state.finished(),
        ensures
            self.next(event).workers.len() == self.workers.len(),
            self.next(event).workers[i].state == self.workers[i].state,
    {
    }
}

/// `Terminated` and `Panicked` are absorbing: no event leads out of them.
pub proof fn law_no_event_revives_a_worker(state: WorkerState, event: WorkerEvent)
    requires
        state.finished(),
    ensures
        state.after(event) == state,
        !state.accepts(event),
{
}

} // verus!
