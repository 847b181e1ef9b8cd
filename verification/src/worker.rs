//! One worker: an ordinal and the state of its loop.

use vstd::prelude::*;
use crate::job_queue::{JobQueue, Received};

verus! {

/// Where a worker stands in its loop.
#[derive(Clone, Copy, Debug, PartialEq, Eq, Structural)]
pub enum WorkerState {
    /// Asking the queue for work, or about to.
    Waiting,
    /// Running the one job it holds.
    Executing,
    /// Out of its loop for good.
    Terminated,
}

/// The state in which a waiting worker finds itself after the queue answered.
pub open spec fn state_after<J>(r: Received<J>) -> WorkerState {
    match r {
        Received::Job(_) => WorkerState::Executing,
        Received::Empty => WorkerState::Waiting,
        Received::Closed => WorkerState::Terminated,
    }
}

/// A worker of the pool.
#[derive(Clone, Copy, Debug)]
pub struct Worker {
    id: usize,
    state: WorkerState,
}

impl Worker {
    /// The worker's ordinal.
    pub closed spec fn spec_id(&self) -> usize {
        self.id
    }

    /// The worker's state.
    pub closed spec fn spec_state(&self) -> WorkerState {
        self.state
    }

    /// A worker that waits for its first job.
    pub fn new(id: usize) -> (w: Worker)
        ensures
            w.id() == id,
            w.state() == WorkerState::Waiting,
    {
        Worker { id, state: WorkerState::Waiting }
    }

    /// The worker's ordinal.
    #[verifier::when_used_as_spec(spec_id)]
    pub fn id(&self) -> (id: usize)
        ensures
            id == self.spec_id(),
    {
        self.id
    }

    /// The worker's state.
    #[verifier::when_used_as_spec(spec_state)]
    pub fn state(&self) -> (s: WorkerState)
        ensures
            s == self.spec_state(),
    {
        self.state
    }

    /// One turn of the loop of a waiting worker: it asks the queue, and holds
    /// a job, keeps waiting or terminates by what the queue answers. The job
    /// goes to the caller, who runs it and then calls `finish`.
    pub fn poll<J>(&mut self, queue: &mut JobQueue<J>) -> (r: Received<J>)
        requires
            old(self).state() == WorkerState::Waiting,
        ensures
            r == old(queue).next(),
            final(queue).closed() == old(queue).closed(),
            final(queue).pending() == if old(queue).pending().len() > 0 {
                old(queue).pending().drop_first()
            } else {
                old(queue).pending()
            },
            final(self).id() == old(self).id(),
            final(self).state() == state_after(r),
    {
        let r = queue.receive();
        match &r {
            Received::Job(_) => {
                self.state = WorkerState::Executing;
            },
            Received::Empty => {},
            Received::Closed => {
                self.state = WorkerState::Terminated;
            },
        }
        r
    }

    /// The job that the worker held has returned: the worker waits again.
    pub fn finish(&mut self)
        requires
            old(self).state() == WorkerState::Executing,
        ensures
            final(self).id() == old(self).id(),
            final(self).state() == WorkerState::Waiting,
    {
        self.state = WorkerState::Waiting;
    }
}

} // verus!
