//! The pool: a fixed set of workers around one queue of jobs.
//!
//! Every operation is one atomic step of the state machine in
//! [`crate::model`]. The pool runs no job and starts no thread itself: the
//! caller that holds it behind a lock lets each thread take its steps here.

use vstd::prelude::*;
use crate::error::PoolError;
use crate::job_queue::{JobQueue, Received};
use crate::model::PoolState;
use crate::worker::{Worker, WorkerState};

verus! {

/// A pool of workers that share one queue of jobs of type `J`.
pub struct ThreadPool<J> {
    workers: Vec<Worker>,
    queue: JobQueue<J>,
    state: Ghost<PoolState<J>>,
}

impl<J> View for ThreadPool<J> {
    type V = PoolState<J>;

    closed spec fn view(&self) -> PoolState<J> {
        self.state@
    }
}

impl<J> ThreadPool<J> {
    /// The workers and the queue are those that the pool's state speaks of.
    pub closed spec fn represented(&self) -> bool {
        &&& self.workers@.len() == self.state@.workers.len()
        &&& forall|w: int|
            0 <= w < self.workers@.len() ==> (#[trigger] self.workers@[w]).id() == w
                && self.workers@[w].state() == self.state@.workers[w]
        &&& self.queue.pending() == self.state@.pending()
        &&& self.queue.closed() == self.state@.closed
    }

    /// The pool is in order.
    pub open spec fn wf(&self) -> bool {
        self@.inv() && self.represented()
    }

    /// A pool of `size` waiting workers with an open, empty queue. A pool
    /// without workers is refused.
    pub fn new(size: usize) -> (r: Result<Self, PoolError>)
        ensures
            size == 0 ==> r == Err::<Self, PoolError>(PoolError::InvalidArgument),
            size > 0 ==> r is Ok,
            r matches Ok(pool) ==> pool.wf() && pool@ == PoolState::<J>::init(size as nat),
    {
        if size == 0 {
            return Err(PoolError::InvalidArgument);
        }
        let mut workers: Vec<Worker> = Vec::new();
        let mut id: usize = 0;
        while id < size
            invariant
                id <= size,
                workers@.len() == id,
                forall|w: int|
                    0 <= w < id ==> (#[trigger] workers@[w]).id() == w && workers@[w].state()
                        == WorkerState::Waiting,
            decreases size - id,
        {
            workers.push(Worker::new(id));
            id += 1;
        }
        let ghost state = PoolState::<J>::init(size as nat);
        proof {
            PoolState::<J>::lemma_init_inv(size as nat);
            assert(state.pending() =~= Seq::<J>::empty());
        }
        Ok(ThreadPool { workers, queue: JobQueue::new(), state: Ghost(state) })
    }

    /// Submits a job. An active pool puts it at the back of the queue and
    /// answers at once; after shutdown has begun the job is refused and the
    /// pool stays as it was.
    pub fn execute(&mut self, job: J) -> (r: Result<(), PoolError>)
        requires
            old(self).wf(),
        ensures
            final(self).wf(),
            final(self)@ == old(self)@.submit(job),
            old(self)@.closed ==> r == Err::<(), PoolError>(PoolError::PoolClosed),
            !old(self)@.closed ==> r == Ok::<(), PoolError>(()),
    {
        let ghost before = self.state@;
        let ghost submitted = job;
        let r = self.queue.submit(job);
        proof {
            before.lemma_submit_inv(submitted);
        }
        self.state = Ghost(before.submit(submitted));
        r
    }

    /// Begins shutdown: the producer side of the queue is closed. Jobs that
    /// wait stay available to the workers. On a pool that is already shutting
    /// down this changes nothing. The caller then waits until
    /// `is_terminated` holds.
    pub fn shutdown(&mut self)
        requires
            old(self).wf(),
        ensures
            final(self).wf(),
            final(self)@ == old(self)@.close(),
    {
        let ghost before = self.state@;
        self.queue.close();
        proof {
            before.lemma_close_inv();
        }
        self.state = Ghost(before.close());
    }

    /// The waiting worker `id` asks for work. It gets the oldest job of the
    /// queue and executes from now on; or is told to wait, on an active pool
    /// with an empty queue; or terminates, once the queue is closed and
    /// drained.
    pub fn worker_receive(&mut self, id: usize) -> (r: Received<J>)
        requires
            old(self).wf(),
            old(self)@.worker_is(id as int, WorkerState::Waiting),
        ensures
            final(self).wf(),
            r == old(self)@.next(),
            final(self)@ == old(self)@.receive(id as int),
    {
        let ghost before = self.state@;
        let mut worker = self.workers[id];
        let r = worker.poll(&mut self.queue);
        self.workers.set(id, worker);
        proof {
            before.lemma_receive_inv(id as int);
        }
        self.state = Ghost(before.receive(id as int));
        r
    }

    /// The job that worker `id` held has returned: the job is done and the
    /// worker waits again.
    pub fn worker_done(&mut self, id: usize)
        requires
            old(self).wf(),
            old(self)@.worker_is(id as int, WorkerState::Executing),
        ensures
            final(self).wf(),
            final(self)@ == old(self)@.complete(id as int),
    {
        let ghost before = self.state@;
        let mut worker = self.workers[id];
        worker.finish();
        self.workers.set(id, worker);
        proof {
            before.lemma_complete_inv(id as int);
        }
        self.state = Ghost(before.complete(id as int));
    }

    /// The number of workers.
    pub fn size(&self) -> (n: usize)
        requires
            self.wf(),
        ensures
            n == self@.size(),
    {
        self.workers.len()
    }

    /// Whether shutdown has begun.
    pub fn is_closed(&self) -> (b: bool)
        requires
            self.wf(),
        ensures
            b == self@.closed,
    {
        self.queue.is_closed()
    }

    /// How many jobs wait in the queue.
    pub fn pending(&self) -> (n: usize)
        requires
            self.wf(),
        ensures
            n == self@.pending().len(),
    {
        self.queue.len()
    }

    /// The state of worker `id`, if there is such a worker.
    pub fn worker_state(&self, id: usize) -> (s: Option<WorkerState>)
        requires
            self.wf(),
        ensures
            id < self@.size() ==> s == Some(self@.workers[id as int]),
            id >= self@.size() ==> s is None,
    {
        if id < self.workers.len() {
            Some(self.workers[id].state())
        } else {
            None
        }
    }

    /// Whether every worker has terminated, which is when shutdown is
    /// complete.
    pub fn is_terminated(&self) -> (b: bool)
        requires
            self.wf(),
        ensures
            b == self@.terminated(),
    {
        let mut id: usize = 0;
        while id < self.workers.len()
            invariant
                self.wf(),
                id <= self.workers@.len(),
                forall|w: int| 0 <= w < id ==> self@.workers[w] == WorkerState::Terminated,
            decreases self.workers@.len() - id,
        {
            match self.workers[id].state() {
                WorkerState::Terminated => {},
                _ => {
                    assert(self@.workers[id as int] != WorkerState::Terminated);
                    return false;
                },
            }
            id += 1;
        }
        true
    }
}

} // verus!
