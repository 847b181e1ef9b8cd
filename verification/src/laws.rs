//! What the pool guarantees, whatever the order in which producers and
//! workers take their steps.

use vstd::prelude::*;
use crate::job_queue::Received;
use crate::model::{JobPhase, PoolState, Step};
use crate::worker::WorkerState;

verus! {

/// How far a job has come: queued, then running, then done.
pub open spec fn phase_rank(phase: JobPhase) -> int {
    match phase {
        JobPhase::Queued => 0,
        JobPhase::Running(_) => 1,
        JobPhase::Done => 2,
    }
}

/// Every step that can be taken keeps the pool in order, and none changes
/// the number of workers.
pub proof fn law_step_keeps_order<J>(s: PoolState<J>, step: Step<J>)
    requires
        s.inv(),
        s.enabled(step),
    ensures
        s.step(step).inv(),
        s.step(step).size() == s.size(),
{
    match step {
        Step::Submit(job) => s.lemma_submit_inv(job),
        Step::Close => s.lemma_close_inv(),
        Step::Receive(w) => s.lemma_receive_inv(w),
        Step::Complete(w) => s.lemma_complete_inv(w),
    }
}

/// A pool of `size` workers, after any steps taken in any order, is in order
/// and still has `size` workers.
pub proof fn law_reachable_pool_in_order<J>(size: nat, steps: Seq<Step<J>>)
    requires
        size >= 1,
        PoolState::<J>::init(size).admits(steps),
    ensures
        PoolState::<J>::init(size).run(steps).inv(),
        PoolState::<J>::init(size).run(steps).size() == size,
    decreases steps.len(),
{
    if steps.len() == 0 {
        PoolState::<J>::lemma_init_inv(size);
    } else {
        law_reachable_pool_in_order::<J>(size, steps.drop_last());
        law_step_keeps_order(PoolState::<J>::init(size).run(steps.drop_last()), steps.last());
    }
}

/// Once every worker has terminated, shutdown had begun, the queue is empty,
/// and every job that was ever accepted has been handed out and has
/// returned: a caller that waits for the workers goes on only after all the
/// jobs are done.
pub proof fn law_terminated_pool_ran_every_job<J>(s: PoolState<J>)
    requires
        s.inv(),
        s.terminated(),
    ensures
        s.closed,
        s.pending().len() == 0,
        s.delivered == s.submitted.len(),
        forall|k: int| 0 <= k < s.submitted.len() ==> s.phase[k] == JobPhase::Done,
{
    assert(s.workers[0] == WorkerState::Terminated);
    assert forall|k: int| 0 <= k < s.submitted.len() implies s.phase[k] == JobPhase::Done by {
        match s.phase[k] {
            JobPhase::Queued => {},
            JobPhase::Running(w) => {
                assert(s.workers[w] == WorkerState::Terminated);
            },
            JobPhase::Done => {},
        }
    }
}

/// The same, from the start: a pool of any size, after any steps, with all
/// its workers terminated, has run each accepted job to its end.
pub proof fn law_shutdown_waits_for_every_job<J>(size: nat, steps: Seq<Step<J>>)
    requires
        size >= 1,
        PoolState::<J>::init(size).admits(steps),
        PoolState::<J>::init(size).run(steps).terminated(),
    ensures
        ({
            let end = PoolState::<J>::init(size).run(steps);
            &&& end.delivered == end.submitted.len()
            &&& forall|k: int| 0 <= k < end.submitted.len() ==> end.phase[k] == JobPhase::Done
        }),
{
    law_reachable_pool_in_order::<J>(size, steps);
    law_terminated_pool_ran_every_job(PoolState::<J>::init(size).run(steps));
}

/// Two workers never hold the same job.
pub proof fn law_no_job_on_two_workers<J>(s: PoolState<J>, a: int, b: int)
    requires
        s.inv(),
        a != b,
        s.worker_is(a, WorkerState::Executing),
        s.worker_is(b, WorkerState::Executing),
    ensures
        s.current[a] is Some,
        s.current[b] is Some,
        s.current[a] != s.current[b],
{
    let ja = s.current[a].unwrap();
    let jb = s.current[b].unwrap();
    assert(s.phase[ja] == JobPhase::Running(a));
    assert(s.phase[jb] == JobPhase::Running(b));
}

/// A job is handed out when it is the oldest in the queue, to the worker
/// that asked and to no other, and at that moment it leaves the queue.
pub proof fn law_delivery_is_first_in_first_out<J>(s: PoolState<J>, w: int)
    requires
        s.inv(),
        s.worker_is(w, WorkerState::Waiting),
        s.pending().len() > 0,
    ensures
        s.next() == Received::Job(s.pending()[0]),
        s.phase[s.delivered] == JobPhase::Queued,
        s.receive(w).phase[s.delivered] == JobPhase::Running(w),
        s.receive(w).current[w] == Some(s.delivered),
        s.receive(w).pending() == s.pending().drop_first(),
        s.receive(w).delivered == s.delivered + 1,
{
    s.lemma_receive_inv(w);
}

/// No step takes a job back: an accepted job stays accepted at its place, a
/// job that runs stays on its worker until it is done, and a job that is done
/// stays done. So each job is executed once.
pub proof fn law_jobs_only_advance<J>(s: PoolState<J>, step: Step<J>, k: int)
    requires
        s.inv(),
        s.enabled(step),
        0 <= k < s.submitted.len(),
    ensures
        k < s.step(step).submitted.len(),
        s.step(step).submitted[k] == s.submitted[k],
        phase_rank(s.step(step).phase[k]) >= phase_rank(s.phase[k]),
        s.phase[k] matches JobPhase::Running(w) ==> s.step(step).phase[k] == JobPhase::Running(w)
            || s.step(step).phase[k] == JobPhase::Done,
{
    match step {
        Step::Submit(job) => {},
        Step::Close => {},
        Step::Receive(w) => {},
        Step::Complete(w) => {
            let held = s.current[w].unwrap();
            assert(s.phase[held] == JobPhase::Running(w));
        },
    }
}

/// After shutdown has begun no submission changes the pool: nothing is put
/// in the queue.
pub proof fn law_closed_pool_takes_no_job<J>(s: PoolState<J>, jobs: Seq<J>)
    requires
        s.closed,
    ensures
        s.submit_all(jobs) == s,
    decreases jobs.len(),
{
    if jobs.len() > 0 {
        law_closed_pool_takes_no_job(s, jobs.drop_last());
    }
}

/// To begin shutdown a second time changes nothing.
pub proof fn law_shutdown_is_idempotent<J>(s: PoolState<J>)
    ensures
        s.close().close() == s.close(),
        s.closed ==> s.close() == s,
{
}

/// An active pool takes every job submitted, once and in the order in which
/// the submissions arrive, whichever producers they come from; nothing else
/// about the pool changes.
pub proof fn law_active_pool_takes_every_job<J>(s: PoolState<J>, jobs: Seq<J>)
    requires
        s.inv(),
        !s.closed,
    ensures
        s.submit_all(jobs).inv(),
        s.submit_all(jobs).submitted == s.submitted + jobs,
        s.submit_all(jobs).pending() == s.pending() + jobs,
        s.submit_all(jobs).workers == s.workers,
        s.submit_all(jobs).current == s.current,
        s.submit_all(jobs).delivered == s.delivered,
        !s.submit_all(jobs).closed,
    decreases jobs.len(),
{
    if jobs.len() == 0 {
        assert(s.submitted + jobs =~= s.submitted);
        assert(s.pending() + jobs =~= s.pending());
    } else {
        let front = jobs.drop_last();
        law_active_pool_takes_every_job(s, front);
        let mid = s.submit_all(front);
        mid.lemma_submit_inv(jobs.last());
        assert(front.push(jobs.last()) =~= jobs);
        assert(mid.submitted.push(jobs.last()) =~= s.submitted + jobs);
        assert(mid.pending().push(jobs.last()) =~= s.pending() + jobs);
    }
}

/// What a worker still has before it: an executing worker returns and asks
/// again, a waiting one asks, a terminated one does nothing more.
pub open spec fn worker_weight(state: WorkerState) -> nat {
    match state {
        WorkerState::Executing => 2,
        WorkerState::Waiting => 1,
        WorkerState::Terminated => 0,
    }
}

/// The weights of all the workers together.
pub open spec fn workers_weight(workers: Seq<WorkerState>) -> nat
    decreases workers.len(),
{
    if workers.len() == 0 {
        0
    } else {
        workers_weight(workers.drop_last()) + worker_weight(workers.last())
    }
}

/// A bound on the steps that the workers of a closed pool can still take:
/// two for each job in the queue, and each worker's own weight.
pub open spec fn work_left<J>(s: PoolState<J>) -> nat {
    (2 * (s.submitted.len() - s.delivered) + workers_weight(s.workers)) as nat
}

proof fn lemma_weight_after_update(workers: Seq<WorkerState>, w: int, state: WorkerState)
    requires
        0 <= w < workers.len(),
    ensures
        workers_weight(workers.update(w, state)) + worker_weight(workers[w]) == workers_weight(
            workers,
        ) + worker_weight(state),
    decreases workers.len(),
{
    let after = workers.update(w, state);
    if w == workers.len() - 1 {
        assert(after.drop_last() =~= workers.drop_last());
    } else {
        lemma_weight_after_update(workers.drop_last(), w, state);
        assert(after.drop_last() =~= workers.drop_last().update(w, state));
    }
}

proof fn lemma_weightless_workers_terminated(workers: Seq<WorkerState>)
    requires
        workers_weight(workers) == 0,
    ensures
        forall|w: int| 0 <= w < workers.len() ==> workers[w] == WorkerState::Terminated,
    decreases workers.len(),
{
    if workers.len() > 0 {
        lemma_weightless_workers_terminated(workers.drop_last());
        assert forall|w: int| 0 <= w < workers.len() implies workers[w]
            == WorkerState::Terminated by {
            if w < workers.len() - 1 {
                assert(workers.drop_last()[w] == workers[w]);
            }
        }
    }
}

/// After shutdown has begun no worker is told to wait: whoever asks gets a
/// job or terminates.
pub proof fn law_closed_pool_never_blocks<J>(s: PoolState<J>, w: int)
    requires
        s.inv(),
        s.closed,
        s.worker_is(w, WorkerState::Waiting),
    ensures
        !(s.next() is Empty),
        s.receive(w).workers[w] != WorkerState::Waiting,
{
}

/// After shutdown has begun every step of a worker brings the end nearer, and
/// no submission puts it off. So the workers of a closed pool terminate after
/// at most `work_left` of their steps.
pub proof fn law_closed_pool_makes_progress<J>(s: PoolState<J>, step: Step<J>)
    requires
        s.inv(),
        s.closed,
        s.enabled(step),
    ensures
        s.step(step).closed,
        match step {
            Step::Submit(_) => work_left(s.step(step)) == work_left(s),
            Step::Close => work_left(s.step(step)) == work_left(s),
            Step::Receive(_) => work_left(s.step(step)) < work_left(s),
            Step::Complete(_) => work_left(s.step(step)) < work_left(s),
        },
{
    match step {
        Step::Submit(_) => {},
        Step::Close => {},
        Step::Receive(w) => {
            if s.delivered < s.submitted.len() {
                lemma_weight_after_update(s.workers, w, WorkerState::Executing);
            } else {
                lemma_weight_after_update(s.workers, w, WorkerState::Terminated);
            }
        },
        Step::Complete(w) => {
            lemma_weight_after_update(s.workers, w, WorkerState::Waiting);
        },
    }
}

/// When nothing is left to do, every worker has terminated; and as long as
/// one has not, it has a step to take.
pub proof fn law_idle_closed_pool_is_terminated<J>(s: PoolState<J>)
    requires
        s.inv(),
    ensures
        work_left(s) == 0 ==> s.terminated(),
        forall|w: int|
            0 <= w < s.size() && s.workers[w] != WorkerState::Terminated ==> s.enabled(
                Step::<J>::Receive(w),
            ) || s.enabled(Step::<J>::Complete(w)),
{
    if work_left(s) == 0 {
        lemma_weightless_workers_terminated(s.workers);
    }
}

} // verus!
