//! The queue of pending jobs: first in, first out, with a one-way switch from
//! open to closed.

use std::collections::VecDeque;
use vstd::prelude::*;
use crate::error::PoolError;

verus! {

/// What a worker gets when it asks the queue for work.
pub enum Received<J> {
    /// The oldest pending job, now owned by the caller alone.
    Job(J),
    /// Nothing is pending, but more may come: the caller waits and asks again.
    Empty,
    /// Nothing is pending and nothing will come: the caller terminates.
    Closed,
}

/// Jobs waiting for a worker, oldest first.
pub struct JobQueue<J> {
    pending: VecDeque<J>,
    closed: bool,
}

impl<J> JobQueue<J> {
    /// The jobs that wait, oldest first.
    pub closed spec fn pending(&self) -> Seq<J> {
        self.pending@
    }

    /// Whether the producer side has been closed.
    pub closed spec fn closed(&self) -> bool {
        self.closed
    }

    /// What `receive` hands out in this state.
    pub open spec fn next(&self) -> Received<J> {
        if self.pending().len() > 0 {
            Received::Job(self.pending()[0])
        } else if self.closed() {
            Received::Closed
        } else {
            Received::Empty
        }
    }

    /// An open queue with nothing pending.
    pub fn new() -> (q: Self)
        ensures
            q.pending() == Seq::<J>::empty(),
            !q.closed(),
    {
        JobQueue { pending: VecDeque::new(), closed: false }
    }

    /// Accepts `job` at the back of an open queue; a closed queue refuses it
    /// and stays as it was.
    pub fn submit(&mut self, job: J) -> (r: Result<(), PoolError>)
        ensures
            final(self).closed() == old(self).closed(),
            old(self).closed() ==> r == Err::<(), PoolError>(PoolError::PoolClosed)
                && final(self).pending() == old(self).pending(),
            !old(self).closed() ==> r == Ok::<(), PoolError>(())
                && final(self).pending() == old(self).pending().push(job),
    {
        if self.closed {
            Err(PoolError::PoolClosed)
        } else {
            self.pending.push_back(job);
            Ok(())
        }
    }

    /// Closes the producer side. What is pending stays available; closing a
    /// closed queue changes nothing.
    pub fn close(&mut self)
        ensures
            final(self).closed(),
            final(self).pending() == old(self).pending(),
    {
        self.closed = true;
    }

    /// Hands out the oldest pending job, or says whether to wait or to stop.
    /// Never blocks: on `Empty` the caller is the one who waits.
    pub fn receive(&mut self) -> (r: Received<J>)
        ensures
            r == old(self).next(),
            final(self).closed() == old(self).closed(),
            final(self).pending() == if old(self).pending().len() > 0 {
                old(self).pending().drop_first()
            } else {
                old(self).pending()
            },
    {
        match self.pending.pop_front() {
            Some(job) => Received::Job(job),
            None => if self.closed {
                Received::Closed
            } else {
                Received::Empty
            },
        }
    }

    /// How many jobs are pending.
    pub fn len(&self) -> (n: usize)
        ensures
            n == self.pending().len(),
    {
        self.pending.len()
    }

    /// Whether nothing is pending.
    pub fn is_empty(&self) -> (b: bool)
        ensures
            b == (self.pending().len() == 0),
    {
        self.pending.len() == 0
    }

    /// Whether the producer side has been closed.
    pub fn is_closed(&self) -> (b: bool)
        ensures
            b == self.closed(),
    {
        self.closed
    }
}

} // verus!
