//! Jobs run side by side: as many at the same moment as there are workers to
//! take them, whatever else the pool is doing.

use crate::laws::{
    jobs_offered, law_accepts_until_shutdown, law_nothing_is_refused_without_panic,
    law_reachable_states_are_valid,
};
use crate::model::{PoolEvent, PoolState};
use vstd::prelude::*;

verus! {

/// Whether `events` only offer jobs and let workers take them: no job ends
/// and no shutdown begins.
pub open spec fn only_starts<J>(events: Seq<PoolEvent<J>>) -> bool {
    forall|k: int|
        0 <= k < events.len() ==> (#[trigger] events[k]) is Execute || events[k] is Acquire
            || events[k] is Receive
}

/// Whether `events` are steps by which workers take jobs, and nothing else.
pub open spec fn only_takes<J>(events: Seq<PoolEvent<J>>) -> bool {
    forall|k: int|
        0 <= k < events.len() ==> (#[trigger] events[k]) is Acquire || events[k] is Receive
}

impl<J> PoolState<J> {
    /// Whether `idle` names workers that wait for a job, each of them once.
    pub open spec fn waiting(self, idle: Seq<int>) -> bool {
        &&& forall|j: int|
            0 <= j < idle.len() ==> 0 <= #[trigger] idle[j] < self.workers.len()
                && self.workers[idle[j]].state is Running
        &&& forall|j1: int, j2: int| 0 <= j1 < j2 < idle.len() ==> idle[j1] != idle[j2]
    }

    /// One more event after `events` is one more step.
    pub proof fn lemma_run_push(self, events: Seq<PoolEvent<J>>, event: PoolEvent<J>)
        ensures
            self.run(events.push(event)) == self.run(events).next(event),
    {
        assert(events.push(event).drop_last() =~= events);
    }

    /// Running `first` and then `rest` is running both in a row.
    pub proof fn lemma_run_concat(self, first: Seq<PoolEvent<J>>, rest: Seq<PoolEvent<J>>)
        ensures
            self.run(first + rest) == self.run(first).run(rest),
        decreases rest.len(),
    {
        if rest.len() == 0 {
        } else {
            self.lemma_run_concat(first, rest.drop_last());
            assert((first + rest).drop_last() =~= first + rest.drop_last());
        }
    }

    /// All pending jobs can be running at the same moment, beside those that
    /// run already. Given one waiting worker for each pending job, with the
    /// holder of the guard first if a worker holds it, there are steps of
    /// these workers alone after which the queue is empty and the `j`-th of
    /// them runs the `j`-th pending job, while no job has ended: every job
    /// that was running before is running still.
    pub proof fn law_pending_jobs_start_at_once(self, idle: Seq<int>) -> (events: Seq<
        PoolEvent<J>,
    >)
        requires
            self.inv(),
            self.waiting(idle),
            idle.len() == self.queue.len(),
            self.guard matches Some(holder) ==> idle.len() == 0 || idle[0] == holder,
        ensures
            only_takes(events),
            self.run(events).inv(),
            self.run(events).queue.len() == 0,
            self.run(events).submitted == self.submitted,
            self.run(events).accepting == self.accepting,
            self.run(events).workers.len() == self.workers.len(),
            self.run(events).executions.len() == self.executions.len() + idle.len(),
            forall|k: int|
                0 <= k < self.executions.len() ==> #[trigger] self.run(events).executions[k]
                    == self.executions[k],
            forall|j: int|
                0 <= j < idle.len() ==> self.run(events).runs(
                    #[trigger] idle[j],
                    self.executions.len() + j,
                ),
            forall|i: int| self.executing(i) ==> self.run(events).executing(i),
        decreases idle.len(),
    {
        if idle.len() == 0 {
            Seq::empty()
        } else {
            let id = idle[0];
            let none = Seq::<PoolEvent<J>>::empty();
            let first = if self.guard == Some(id) {
                none.push(PoolEvent::Receive(id))
            } else {
                none.push(PoolEvent::Acquire(id)).push(PoolEvent::Receive(id))
            };
            let mid = self.acquire(id).receive(id);
            assert(self.run(first) == mid) by {
                self.lemma_run_push(none, PoolEvent::Acquire(id));
                self.lemma_run_push(none.push(PoolEvent::Acquire(id)), PoolEvent::Receive(id));
                self.lemma_run_push(none, PoolEvent::Receive(id));
            }
            self.lemma_acquire_inv(id);
            self.acquire(id).lemma_receive_inv(id);
            let later = idle.skip(1);
            let rest = mid.law_pending_jobs_start_at_once(later);
            let events = first + rest;
            self.lemma_run_concat(first, rest);
            let after = self.run(events);
            assert forall|j: int| 0 <= j < idle.len() implies after.runs(
                #[trigger] idle[j],
                self.executions.len() + j,
            ) by {
                if j > 0 {
                    assert(later[j - 1] == idle[j]);
                }
            }
            assert forall|i: int| self.executing(i) implies after.executing(i) by {
                assert(mid.executing(i));
            }
            events
        }
    }
}

/// While jobs are only offered and taken, every worker of a new pool either
/// waits or runs a job, and the waiting ones can be listed: `idle` names
/// each of them once, and there is one of them for each worker that runs no
/// job.
proof fn lemma_waiting_workers<J>(size: nat, events: Seq<PoolEvent<J>>) -> (idle: Seq<int>)
    requires
        1 <= size <= usize::MAX,
        only_starts(events),
    ensures
        ({
            let now = PoolState::<J>::init(size).run(events);
            &&& now.inv()
            &&& now.accepting
            &&& now.workers.len() == size
            &&& now.waiting(idle)
            &&& idle.len() + now.executions.len() == size
            &&& forall|i: int|
                0 <= i < size && (#[trigger] now.workers[i]).state is Running ==> idle.contains(i)
            &&& forall|i: int|
                0 <= i < size ==> (#[trigger] now.workers[i]).state is Running
                    || now.workers[i].state is Executing
            &&& forall|k: int|
                0 <= k < now.executions.len() ==> (#[trigger] now.executions[k]).status is InFlight
        }),
    decreases events.len(),
{
    law_reachable_states_are_valid::<J>(size, events);
    if events.len() == 0 {
        let idle = Seq::new(size, |i: int| i);
        assert forall|i: int| 0 <= i < size implies idle.contains(i) by {
            assert(idle[i] == i);
        }
        idle
    } else {
        let earlier = events.drop_last();
        let before = PoolState::<J>::init(size).run(earlier);
        let now = before.next(events.last());
        let idle = lemma_waiting_workers::<J>(size, earlier);
        match events.last() {
            PoolEvent::Receive(id) if before.guard == Some(id) && before.queue.len() > 0 => {
                let at = choose|at: int| 0 <= at < idle.len() && idle[at] == id;
                idle.remove_ensures(at);
                let left = idle.remove(at);
                assert forall|i: int|
                    0 <= i < size && (#[trigger] now.workers[i]).state is Running implies left.contains(
                    i,
                ) by {
                    let j = choose|j: int| 0 <= j < idle.len() && idle[j] == i;
                    if j < at {
                        assert(left[j] == i);
                    } else {
                        assert(left[j - 1] == i);
                    }
                }
                left
            },
            _ => idle,
        }
    }
}

/// Blocking jobs all come to run at the same moment, each on a worker of its
/// own, as long as there are no more of them than workers. Let a new pool
/// of `size` workers be offered jobs, at most `size` in all, while its
/// workers take jobs in any order and no job ends. Then the workers can go
/// on, by steps of theirs alone, to a state in which every job that was
/// offered is in flight, no two of them on the same worker.
pub proof fn law_blocking_jobs_all_run_at_once<J>(size: nat, events: Seq<PoolEvent<J>>) -> (more:
    Seq<PoolEvent<J>>)
    requires
        1 <= size <= usize::MAX,
        only_starts(events),
        jobs_offered(events).len() <= size,
    ensures
        only_takes(more),
        ({
            let all = PoolState::<J>::init(size).run(events + more);
            &&& all.inv()
            &&& all.submitted == jobs_offered(events)
            &&& all.queue.len() == 0
            &&& all.executions.len() == jobs_offered(events).len()
            &&& forall|k: int|
                0 <= k < all.executions.len() ==> (#[trigger] all.executions[k]).status is InFlight
                    && all.executing(all.executions[k].worker)
            &&& forall|k1: int, k2: int|
                0 <= k1 < k2 < all.executions.len() ==> (#[trigger] all.executions[k1]).worker != (
                #[trigger] all.executions[k2]).worker
        }),
{
    let now = PoolState::<J>::init(size).run(events);
    let waiting = lemma_waiting_workers::<J>(size, events);
    law_accepts_until_shutdown::<J>(size, events);
    law_nothing_is_refused_without_panic::<J>(size, events);
    let pending = now.queue.len() as int;
    // One waiting worker for each pending job, the holder of the guard first.
    let idle = match now.guard {
        Some(holder) if pending > 0 => {
            let at = choose|at: int| 0 <= at < waiting.len() && waiting[at] == holder;
            waiting.remove_ensures(at);
            seq![holder] + waiting.remove(at).take(pending - 1)
        },
        _ => waiting.take(pending),
    };
    let more = now.law_pending_jobs_start_at_once(idle);
    PoolState::<J>::init(size).lemma_run_concat(events, more);
    let all = now.run(more);
    assert forall|k: int| 0 <= k < all.executions.len() implies (#[trigger] all.executions[k]).status is InFlight
        && all.executing(all.executions[k].worker) by {
        if k >= now.executions.len() {
            assert(all.runs(idle[k - now.executions.len()], k));
        }
    }
    assert forall|k1: int, k2: int| 0 <= k1 < k2 < all.executions.len() implies (
    #[trigger] all.executions[k1]).worker != (#[trigger] all.executions[k2]).worker by {
        let w = all.executions[k1].worker;
        if all.executions[k2].worker == w {
            assert(all.runs(w, k1) && all.runs(w, k2));
        }
    }
    more
}

} // verus!
