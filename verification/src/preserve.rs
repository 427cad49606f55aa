//! Every operation of the pool keeps the invariant of [`PoolState`].

use crate::model::{join_frontier, PoolEvent, PoolState};
use crate::worker::{JobOutcome, Worker};
use vstd::prelude::*;

verus! {

/// The frontier lies between `from` and the number of workers; every worker
/// from `from` up to it has ended, and the worker at it, if there is one, has
/// not.
pub proof fn lemma_join_frontier(workers: Seq<Worker>, from: nat)
    requires
        from <= workers.len(),
    ensures
        from <= join_frontier(workers, from) <= workers.len(),
        forall|i: int|
            from <= i < join_frontier(workers, from) ==> (#[trigger] workers[i]).state.finished(),
        join_frontier(workers, from) < workers.len() ==> !workers[join_frontier(
            workers,
            from,
        ) as int].state.finished(),
    decreases workers.len() - from,
{
    if from < workers.len() && workers[from as int].state.finished() {
        lemma_join_frontier(workers, from + 1);
    }
}

impl<J> PoolState<J> {
    /// A new pool of at least one worker is in a valid state.
    pub proof fn lemma_init_inv(size: nat)
        requires
            1 <= size <= usize::MAX,
        ensures
            Self::init(size).inv(),
    {
        let s = Self::init(size);
        assert(s.queue =~= s.submitted.skip(0));
    }

    /// Submitting a job keeps the state valid.
    pub proof fn lemma_execute_inv(self, job: J)
        requires
            self.inv(),
        ensures
            self.execute(job).inv(),
    {
        let t = self.execute(job);
        if self.takes_jobs() {
            assert(t.queue =~= t.submitted.skip(t.executions.len() as int));
            assert forall|id: int, k: int| t.runs(id, k) == self.runs(id, k) by {}
        }
    }

    /// Asking for the guard keeps the state valid.
    pub proof fn lemma_acquire_inv(self, id: int)
        requires
            self.inv(),
        ensures
            self.acquire(id).inv(),
    {
        let t = self.acquire(id);
        if self.can_acquire(id) {
            assert forall|w: int, k: int| t.runs(w, k) == self.runs(w, k) by {}
        }
    }

    /// Asking the queue for a job keeps the state valid.
    pub proof fn lemma_receive_inv(self, id: int)
        requires
            self.inv(),
        ensures
            self.receive(id).inv(),
    {
        let t = self.receive(id);
        if self.guard == Some(id) {
            if self.queue.len() > 0 {
                let n = self.executions.len() as int;
                assert(t.queue =~= t.submitted.skip(t.executions.len() as int));
                assert forall|w: int, k: int| 0 <= k < n implies t.runs(w, k) == self.runs(w, k) by {}
                assert(t.runs(id, n));
            } else if !self.accepting {
                assert forall|w: int, k: int| t.runs(w, k) == self.runs(w, k) by {}
            }
        }
    }

    /// The end of a job keeps the state valid.
    pub proof fn lemma_finish_inv(self, id: int, outcome: JobOutcome)
        requires
            self.inv(),
        ensures
            self.finish(id, outcome).inv(),
    {
        let t = self.finish(id, outcome);
        if self.executing(id) {
            assert forall|w: int, k: int| w != id implies t.runs(w, k) == self.runs(w, k) by {}
        }
    }

    /// A shutdown keeps the state valid.
    pub proof fn lemma_shutdown_inv(self)
        requires
            self.inv(),
        ensures
            self.shutdown().inv(),
    {
        let t = self.shutdown();
        lemma_join_frontier(self.workers, self.joined);
        assert forall|w: int, k: int| t.runs(w, k) == self.runs(w, k) by {}
    }

    /// Whatever happens to a pool keeps its state valid.
    pub proof fn lemma_next_inv(self, event: PoolEvent<J>)
        requires
            self.inv(),
        ensures
            self.next(event).inv(),
    {
        match event {
            PoolEvent::Execute(job) => self.lemma_execute_inv(job),
            PoolEvent::Acquire(id) => self.lemma_acquire_inv(id),
            PoolEvent::Receive(id) => self.lemma_receive_inv(id),
            PoolEvent::Finish(id, outcome) => self.lemma_finish_inv(id, outcome),
            PoolEvent::Shutdown => self.lemma_shutdown_inv(),
        }
    }

    /// Any sequence of events keeps the state of a pool valid.
    pub proof fn lemma_run_inv(self, events: Seq<PoolEvent<J>>)
        requires
            self.inv(),
        ensures
            self.run(events).inv(),
        decreases events.len(),
    {
        if events.len() > 0 {
            self.lemma_run_inv(events.drop_last());
            self.run(events.drop_last()).lemma_next_inv(events.last());
        }
    }
}

} // verus!
