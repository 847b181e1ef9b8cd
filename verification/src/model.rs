//! The pool as a state machine over mathematical values: which jobs were
//! accepted, which worker holds which job, and what each step changes.

use vstd::prelude::*;
use crate::job_queue::Received;
use crate::worker::WorkerState;

verus! {

/// Where an accepted job stands.
pub enum JobPhase {
    /// In the queue.
    Queued,
    /// Held by the worker with this ordinal.
    Running(int),
    /// Returned from its one execution.
    Done,
}

/// One atomic step of the pool. However many threads call in, the lock
/// around the pool puts their steps in one order.
pub enum Step<J> {
    /// A producer submits a job.
    Submit(J),
    /// Shutdown begins.
    Close,
    /// The worker with this ordinal asks for work.
    Receive(int),
    /// The job held by the worker with this ordinal returns.
    Complete(int),
}

/// The pool at one moment. Jobs are known by their place in the order of
/// acceptance.
pub struct PoolState<J> {
    /// The state of each worker, by ordinal.
    pub workers: Seq<WorkerState>,
    /// The job that each worker holds, if any.
    pub current: Seq<Option<int>>,
    /// Every job ever accepted, oldest first.
    pub submitted: Seq<J>,
    /// Where each accepted job stands.
    pub phase: Seq<JobPhase>,
    /// How many jobs have left the queue.
    pub delivered: int,
    /// Whether shutdown has begun.
    pub closed: bool,
}

impl<J> PoolState<J> {
    /// A fresh pool of `size` waiting workers.
    pub open spec fn init(size: nat) -> Self {
        PoolState {
            workers: Seq::new(size, |w: int| WorkerState::Waiting),
            current: Seq::new(size, |w: int| None::<int>),
            submitted: Seq::empty(),
            phase: Seq::empty(),
            delivered: 0,
            closed: false,
        }
    }

    /// The number of workers.
    pub open spec fn size(self) -> nat {
        self.workers.len()
    }

    /// The jobs in the queue, oldest first.
    pub open spec fn pending(self) -> Seq<J> {
        self.submitted.subrange(self.delivered, self.submitted.len() as int)
    }

    /// Whether `w` is the ordinal of a worker in the given state.
    pub open spec fn worker_is(self, w: int, state: WorkerState) -> bool {
        0 <= w < self.workers.len() && self.workers[w] == state
    }

    /// Whether every worker has left its loop: the moment at which a caller
    /// who waits for the end of shutdown goes on.
    pub open spec fn terminated(self) -> bool {
        forall|w: int| 0 <= w < self.workers.len() ==> self.workers[w] == WorkerState::Terminated
    }

    /// The pool after a submission: an active pool takes the job at the back
    /// of the queue, a closed one stays as it is.
    pub open spec fn submit(self, job: J) -> Self {
        if self.closed {
            self
        } else {
            PoolState {
                submitted: self.submitted.push(job),
                phase: self.phase.push(JobPhase::Queued),
                ..self
            }
        }
    }

    /// The pool after the jobs of `jobs` were submitted one after the other.
    pub open spec fn submit_all(self, jobs: Seq<J>) -> Self
        decreases jobs.len(),
    {
        if jobs.len() == 0 {
            self
        } else {
            self.submit_all(jobs.drop_last()).submit(jobs.last())
        }
    }

    /// The pool after shutdown has begun.
    pub open spec fn close(self) -> Self {
        PoolState { closed: true, ..self }
    }

    /// What a waiting worker is handed in this state.
    pub open spec fn next(self) -> Received<J> {
        if self.delivered < self.submitted.len() {
            Received::Job(self.submitted[self.delivered])
        } else if self.closed {
            Received::Closed
        } else {
            Received::Empty
        }
    }

    /// The pool after the waiting worker `w` asked for work.
    pub open spec fn receive(self, w: int) -> Self {
        if self.delivered < self.submitted.len() {
            PoolState {
                workers: self.workers.update(w, WorkerState::Executing),
                current: self.current.update(w, Some(self.delivered)),
                phase: self.phase.update(self.delivered, JobPhase::Running(w)),
                delivered: self.delivered + 1,
                ..self
            }
        } else if self.closed {
            PoolState { workers: self.workers.update(w, WorkerState::Terminated), ..self }
        } else {
            self
        }
    }

    /// The pool after the job that worker `w` held has returned.
    pub open spec fn complete(self, w: int) -> Self {
        PoolState {
            workers: self.workers.update(w, WorkerState::Waiting),
            current: self.current.update(w, None),
            phase: self.phase.update(self.current[w].unwrap(), JobPhase::Done),
            ..self
        }
    }

    /// Whether `step` can be taken in this state: anyone may submit or begin
    /// shutdown at any time, a worker asks for work only while it waits, and
    /// a job returns only on a worker that executes.
    pub open spec fn enabled(self, step: Step<J>) -> bool {
        match step {
            Step::Submit(_) => true,
            Step::Close => true,
            Step::Receive(w) => self.worker_is(w, WorkerState::Waiting),
            Step::Complete(w) => self.worker_is(w, WorkerState::Executing),
        }
    }

    /// The pool after `step`.
    pub open spec fn step(self, step: Step<J>) -> Self {
        match step {
            Step::Submit(job) => self.submit(job),
            Step::Close => self.close(),
            Step::Receive(w) => self.receive(w),
            Step::Complete(w) => self.complete(w),
        }
    }

    /// The pool after the steps of `steps`, taken in order.
    pub open spec fn run(self, steps: Seq<Step<J>>) -> Self
        decreases steps.len(),
    {
        if steps.len() == 0 {
            self
        } else {
            self.run(steps.drop_last()).step(steps.last())
        }
    }

    /// Whether each step of `steps` can be taken when its turn comes.
    pub open spec fn admits(self, steps: Seq<Step<J>>) -> bool
        decreases steps.len(),
    {
        steps.len() == 0 || (self.admits(steps.drop_last()) && self.run(
            steps.drop_last(),
        ).enabled(steps.last()))
    }

    /// What holds of the pool at every moment.
    pub open spec fn inv(self) -> bool {
        &&& self.workers.len() >= 1
        &&& self.current.len() == self.workers.len()
        &&& self.phase.len() == self.submitted.len()
        &&& 0 <= self.delivered <= self.submitted.len()
        // the jobs in the queue are those not yet handed out
        &&& forall|k: int|
            0 <= k < self.phase.len() ==> ((#[trigger] self.phase[k] == JobPhase::Queued) <==> k
                >= self.delivered)
        // a running job is held by an executing worker, and that worker holds it
        &&& forall|k: int|
            0 <= k < self.phase.len() ==> (#[trigger] self.phase[k] matches JobPhase::Running(w)
                ==> self.worker_is(w, WorkerState::Executing) && self.current[w] == Some(k))
        // a worker holds a job exactly while it executes
        &&& forall|w: int|
            0 <= w < self.workers.len() ==> ((#[trigger] self.workers[w]
                == WorkerState::Executing) <==> self.current[w] is Some)
        // the job that a worker holds is running, and on that worker
        &&& forall|w: int|
            0 <= w < self.workers.len() ==> (#[trigger] self.current[w] matches Some(k) ==> 0 <= k
                < self.phase.len() && self.phase[k] == JobPhase::Running(w))
        // a worker terminates only once the queue is closed and drained
        &&& forall|w: int|
            0 <= w < self.workers.len() ==> ((#[trigger] self.workers[w]
                == WorkerState::Terminated) ==> self.closed && self.delivered
                == self.submitted.len())
    }

    /// A fresh pool is in order.
    pub proof fn lemma_init_inv(size: nat)
        requires
            size >= 1,
        ensures
            Self::init(size).inv(),
            Self::init(size).size() == size,
    {
    }

    /// A submission keeps the pool in order.
    pub proof fn lemma_submit_inv(self, job: J)
        requires
            self.inv(),
        ensures
            self.submit(job).inv(),
            self.submit(job).size() == self.size(),
            !self.closed ==> self.submit(job).pending() == self.pending().push(job),
    {
        if !self.closed {
            assert(self.submit(job).pending() =~= self.pending().push(job));
        }
    }

    /// The start of shutdown keeps the pool in order.
    pub proof fn lemma_close_inv(self)
        requires
            self.inv(),
        ensures
            self.close().inv(),
            self.close().size() == self.size(),
            self.close().pending() == self.pending(),
    {
    }

    /// A waiting worker's request keeps the pool in order, and takes the
    /// oldest job out of the queue if there is one.
    pub proof fn lemma_receive_inv(self, w: int)
        requires
            self.inv(),
            self.worker_is(w, WorkerState::Waiting),
        ensures
            self.receive(w).inv(),
            self.receive(w).size() == self.size(),
            self.pending().len() > 0 ==> self.next() == Received::Job(self.pending()[0])
                && self.receive(w).pending() == self.pending().drop_first(),
            self.pending().len() == 0 ==> !(self.next() is Job) && self.receive(w).pending()
                == self.pending(),
    {
        if self.pending().len() > 0 {
            assert(self.receive(w).pending() =~= self.pending().drop_first());
        }
    }

    /// The return of a job keeps the pool in order.
    pub proof fn lemma_complete_inv(self, w: int)
        requires
            self.inv(),
            self.worker_is(w, WorkerState::Executing),
        ensures
            self.complete(w).inv(),
            self.complete(w).size() == self.size(),
            self.complete(w).pending() == self.pending(),
    {
    }
}

} // verus!
