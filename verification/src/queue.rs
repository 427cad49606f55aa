//! The job queue: an unbounded, ordered transport with a closable producer side.

use std::collections::VecDeque;
use vstd::prelude::*;

verus! {

/// What one receive attempt on a [`JobQueue`] observes.
#[derive(Debug, PartialEq, Eq)]
pub enum Received<J> {
    /// The oldest pending job, which now belongs to the receiver.
    Job(J),
    /// Nothing is pending, but the producer may still submit: the receiver waits.
    Empty,
    /// Nothing is pending and the producer is closed: nothing will ever arrive.
    Closed,
}

/// What a [`JobQueue`] holds.
pub struct QueueState<J> {
    /// The pending jobs, oldest first.
    pub pending: Seq<J>,
    /// Whether the producer side is still open.
    pub open: bool,
}

/// An unbounded first-in, first-out queue of jobs.
pub struct JobQueue<J> {
    pending: VecDeque<J>,
    open: bool,
}

impl<J> View for JobQueue<J> {
    type V = QueueState<J>;

    closed spec fn view(&self) -> QueueState<J> {
        QueueState { pending: self.pending@, open: self.open }
    }
}

impl<J> JobQueue<J> {
    /// An empty queue with an open producer.
    pub fn new() -> (queue: Self)
        ensures
            queue@ == (QueueState { pending: Seq::<J>::empty(), open: true }),
    {
        JobQueue { pending: VecDeque::new(), open: true }
    }

    /// Enqueues `job` behind every pending job while the producer is open.
    /// Once the producer is closed the job is discarded and nothing changes.
    /// Returns whether the job was enqueued.
    pub fn submit(&mut self, job: J) -> (accepted: bool)
        ensures
            accepted == old(self)@.open,
            old(self)@.open ==> final(self)@ == (QueueState {
                pending: old(self)@.pending.push(job),
                ..old(self)@
            }),
            !old(self)@.open ==> final(self)@ == old(self)@,
    {
        if self.open {
            self.pending.push_back(job);
            true
        } else {
            false
        }
    }

    /// Closes the producer for good. Pending jobs stay deliverable.
    pub fn close_producer(&mut self)
        ensures
            final(self)@ == (QueueState { open: false, ..old(self)@ }),
    {
        self.open = false;
    }

    /// One receive attempt: hands out the oldest pending job if there is one,
    /// and otherwise tells an open producer from a closed one.
    pub fn receive(&mut self) -> (received: Received<J>)
        ensures
            old(self)@.pending.len() > 0 ==> received == Received::Job(old(self)@.pending[0])
                && final(self)@ == (QueueState {
                pending: old(self)@.pending.skip(1),
                ..old(self)@
            }),
            old(self)@.pending.len() == 0 ==> final(self)@ == old(self)@,
            old(self)@.pending.len() == 0 && old(self)@.open ==> received == Received::<J>::Empty,
            old(self)@.pending.len() == 0 && !old(self)@.open ==> received == Received::<
                J,
            >::Closed,
    {
        match self.pending.pop_front() {
            Some(job) => Received::Job(job),
            None => if self.open {
                Received::Empty
            } else {
                Received::Closed
            },
        }
    }

    /// The number of pending jobs.
    pub fn len(&self) -> (n: usize)
        ensures
            n == self@.pending.len(),
    {
        self.pending.len()
    }

    /// Whether the producer side is still open.
    pub fn is_open(&self) -> (open: bool)
        ensures
            open == self@.open,
    {
        self.open
    }
}

} // verus!
