//! What holds of every pool, whatever was submitted and however the
//! workers were scheduled.
//!
//! A schedule is a sequence of steps: submissions, receive attempts,
//! returns and failures of jobs, and calls of teardown, in any order that
//! the state machine admits. The laws below are proved for every state
//! that meets the invariant, and every state that a schedule reaches from a
//! fresh pool meets it.

use crate::channel::Received;
use crate::model::{first_blocked, PoolError, PoolView, Shutdown};
use crate::worker::{WorkerState, WorkerView};
use vstd::prelude::*;

verus! {

/// One step of a pool.
pub enum PoolStep<J> {
    /// A caller submits this job.
    Execute(J),
    /// This worker asks the channel for a job.
    Receive(int),
    /// The job of this worker returns.
    Complete(int),
    /// The job of this worker fails abnormally.
    Panicked(int),
    /// The owner calls teardown.
    Shutdown,
}

impl<J> PoolView<J> {
    /// The step can be taken in this state.
    pub open spec fn admits(self, step: PoolStep<J>) -> bool {
        match step {
            PoolStep::Execute(_) => self.accepting() ==> self.receiver_alive(),
            PoolStep::Receive(id) => self.has_worker(id) && self.workers[id].state
                == WorkerState::Idle,
            PoolStep::Complete(id) => self.has_worker(id) && self.workers[id].state
                == WorkerState::Busy,
            PoolStep::Panicked(id) => self.has_worker(id) && self.workers[id].state
                == WorkerState::Busy,
            PoolStep::Shutdown => true,
        }
    }

    /// The state after the step.
    pub open spec fn step(self, step: PoolStep<J>) -> Self {
        match step {
            PoolStep::Execute(job) => self.execute(job),
            PoolStep::Receive(id) => self.receive(id),
            PoolStep::Complete(id) => self.complete(id),
            PoolStep::Panicked(id) => self.panicked(id),
            PoolStep::Shutdown => self.shutdown(),
        }
    }

    /// The state after a schedule.
    pub open spec fn run(self, steps: Seq<PoolStep<J>>) -> Self
        decreases steps.len(),
    {
        if steps.len() == 0 {
            self
        } else {
            self.run(steps.drop_last()).step(steps.last())
        }
    }

    /// Every step of the schedule can be taken when its turn comes.
    pub open spec fn admits_all(self, steps: Seq<PoolStep<J>>) -> bool
        decreases steps.len(),
    {
        steps.len() > 0 ==> self.admits_all(steps.drop_last()) && self.run(
            steps.drop_last(),
        ).admits(steps.last())
    }

    /// No worker's thread died in a job.
    pub open spec fn no_worker_panicked(self) -> bool {
        forall|id: int|
            self.has_worker(id) ==> (#[trigger] self.workers[id]).state != WorkerState::Panicked
    }
}

/// Every step keeps the invariant.
pub proof fn lemma_step_keeps_invariant<J>(pool: PoolView<J>, step: PoolStep<J>)
    requires
        pool.inv(),
        pool.admits(step),
    ensures
        pool.step(step).inv(),
{
    match step {
        PoolStep::Execute(job) => pool.lemma_execute_inv(job),
        PoolStep::Receive(id) => pool.lemma_receive_inv(id),
        PoolStep::Complete(id) => pool.lemma_complete_inv(id),
        PoolStep::Panicked(id) => pool.lemma_panicked_inv(id),
        PoolStep::Shutdown => pool.lemma_shutdown_inv(),
    }
}

/// Every state that a schedule reaches from a state with the invariant has
/// the invariant.
pub proof fn lemma_run_keeps_invariant<J>(pool: PoolView<J>, steps: Seq<PoolStep<J>>)
    requires
        pool.inv(),
        pool.admits_all(steps),
    ensures
        pool.run(steps).inv(),
    decreases steps.len(),
{
    if steps.len() > 0 {
        lemma_run_keeps_invariant(pool, steps.drop_last());
        lemma_step_keeps_invariant(pool.run(steps.drop_last()), steps.last());
    }
}

/// A pool constructed with `n` workers, `n` at least 1, has exactly `n`
/// workers, numbered from 0 in the order of construction. Each of them is
/// live and waits for a job, and each of them can run a job: whichever
/// worker asks first after a submission gets the job and is busy with it.
pub proof fn lemma_fresh_pool_has_n_live_workers<J>(n: nat, id: int, job: J)
    requires
        0 < n <= usize::MAX,
        0 <= id < n,
    ensures
        PoolView::<J>::fresh(n).inv(),
        PoolView::<J>::fresh(n).workers.len() == n,
        PoolView::<J>::fresh(n).workers[id].id == id,
        PoolView::<J>::fresh(n).workers[id].state == WorkerState::Idle,
        !PoolView::<J>::fresh(n).workers[id].joined,
        PoolView::<J>::fresh(n).accepting(),
        PoolView::<J>::fresh(n).admits(PoolStep::Execute(job)),
        PoolView::<J>::fresh(n).execute(job).admits(PoolStep::Receive(id)),
        PoolView::<J>::fresh(n).execute(job).received() == Received::Job(job),
        PoolView::<J>::fresh(n).execute(job).receive(id).workers[id].state == WorkerState::Busy,
{
    let pool = PoolView::<J>::fresh(n);
    PoolView::<J>::lemma_fresh_inv(n);
    assert(pool.runs(id));
}

/// An idle worker that asks while a job is pending gets the oldest pending
/// job, whatever the other workers do. The job is the accepted job that
/// the worker's ticket names.
pub proof fn lemma_idle_worker_gets_pending_job<J>(pool: PoolView<J>, id: int)
    requires
        pool.inv(),
        pool.admits(PoolStep::Receive(id)),
        pool.channel.queue.len() > 0,
    ensures
        pool.received() == Received::Job(pool.channel.queue[0]),
        pool.receive(id).workers[id].state == WorkerState::Busy,
        pool.receive(id).channel.queue == pool.channel.queue.drop_first(),
        pool.receive(id).holds(id, pool.channel.delivered.len()),
        pool.channel.queue[0] == pool.channel.accepted[pool.channel.delivered.len() as int],
{
    pool.channel.lemma_head_is_next_accepted();
}

/// The tickets below `n` are `n` in number.
proof fn lemma_count_tickets_below(n: nat)
    ensures
        Set::new(|t: nat| t < n).finite(),
        Set::new(|t: nat| t < n).len() == n,
    decreases n,
{
    if n == 0 {
        assert(Set::new(|t: nat| t < n) =~= Set::<nat>::empty());
    } else {
        let m = (n - 1) as nat;
        lemma_count_tickets_below(m);
        assert(Set::new(|t: nat| t < m).insert(m) =~= Set::new(|t: nat| t < n));
    }
}

/// Once teardown is complete and no job has failed abnormally, every job
/// that the pool accepted has run exactly once: the completion record
/// names every ticket, and none twice. This holds for any number of jobs
/// and any number of workers.
pub proof fn lemma_every_job_runs_exactly_once<J>(pool: PoolView<J>)
    requires
        pool.inv(),
        pool.all_joined(),
        pool.no_worker_panicked(),
    ensures
        pool.all_stopped(),
        !pool.accepting(),
        pool.channel.queue.len() == 0,
        pool.channel.delivered == pool.channel.accepted,
        pool.finished.no_duplicates(),
        pool.finished.len() == pool.channel.accepted.len(),
        forall|t: nat| t < pool.channel.accepted.len() <==> pool.finished.contains(t),
{
    assert forall|id: int| pool.has_worker(id) implies (#[trigger] pool.workers[id]).state
        == WorkerState::Stopped by {
        assert(pool.workers[id].inv());
    }
    assert(pool.workers[0].state == WorkerState::Stopped);
    assert(pool.channel.delivered =~= pool.channel.accepted);
    let n = pool.channel.accepted.len();
    assert forall|t: nat| t < n <==> pool.finished.contains(t) by {
        if t < n {
            assert(pool.accounted(t));
            if !pool.finished.contains(t) {
                let holder = choose|holder: int| pool.holds(holder, t);
                assert(pool.workers[holder].state == WorkerState::Stopped);
            }
        }
        if pool.finished.contains(t) {
            let k = choose|k: int| 0 <= k < pool.finished.len() && pool.finished[k] == t;
            assert(pool.finished[k] < n);
        }
    }
    assert(pool.finished.to_set() =~= Set::new(|t: nat| t < n));
    pool.finished.unique_seq_to_set();
    lemma_count_tickets_below(n);
}

/// The same law over schedules: however a fresh pool was driven, if it ends
/// with teardown complete and no job failed abnormally, every submitted
/// job has run exactly once.
pub proof fn lemma_clean_teardown_ran_every_job<J>(n: nat, steps: Seq<PoolStep<J>>)
    requires
        0 < n <= usize::MAX,
        PoolView::<J>::fresh(n).admits_all(steps),
        PoolView::<J>::fresh(n).run(steps).all_joined(),
        PoolView::<J>::fresh(n).run(steps).no_worker_panicked(),
    ensures
        PoolView::<J>::fresh(n).run(steps).finished.no_duplicates(),
        PoolView::<J>::fresh(n).run(steps).finished.len() == PoolView::<J>::fresh(n).run(
            steps,
        ).channel.accepted.len(),
        forall|t: nat|
            t < PoolView::<J>::fresh(n).run(steps).channel.accepted.len() <==> PoolView::<J>::fresh(
                n,
            ).run(steps).finished.contains(t),
{
    PoolView::<J>::lemma_fresh_inv(n);
    lemma_run_keeps_invariant(PoolView::<J>::fresh(n), steps);
    lemma_every_job_runs_exactly_once(PoolView::<J>::fresh(n).run(steps));
}

/// No job is taken by two workers: workers that hold the same ticket are
/// the same worker.
pub proof fn lemma_no_job_is_taken_twice<J>(pool: PoolView<J>, first: int, second: int, ticket: nat)
    requires
        pool.inv(),
        pool.holds(first, ticket),
        pool.holds(second, ticket),
    ensures
        first == second,
{
}

/// A job submitted after teardown has begun changes nothing, and the
/// submission can always be made: it neither waits nor fails.
pub proof fn lemma_job_after_teardown_is_dropped<J>(pool: PoolView<J>, job: J)
    requires
        !pool.accepting(),
    ensures
        pool.admits(PoolStep::Execute(job)),
        pool.execute(job) == pool,
{
}

/// Once teardown has begun the pool never accepts work again, and no step
/// adds to the jobs that it accepted.
pub proof fn lemma_closed_pool_stays_closed<J>(pool: PoolView<J>, step: PoolStep<J>)
    requires
        !pool.accepting(),
    ensures
        !pool.step(step).accepting(),
        pool.step(step).channel.accepted == pool.channel.accepted,
{
}

/// Whatever happens after teardown has begun, the jobs that the pool
/// accepted stay what they were: a job submitted later is never among the
/// jobs that workers get.
pub proof fn lemma_no_job_is_accepted_after_teardown<J>(pool: PoolView<J>, steps: Seq<PoolStep<J>>)
    requires
        !pool.accepting(),
    ensures
        !pool.run(steps).accepting(),
        pool.run(steps).channel.accepted == pool.channel.accepted,
    decreases steps.len(),
{
    if steps.len() > 0 {
        lemma_no_job_is_accepted_after_teardown(pool, steps.drop_last());
        lemma_closed_pool_stays_closed(pool.run(steps.drop_last()), steps.last());
    }
}

/// The position at which teardown stops is a worker that blocks it, and no
/// worker before it does.
pub proof fn lemma_teardown_stop<J>(pool: PoolView<J>)
    ensures
        0 <= pool.teardown_stop() <= pool.workers.len(),
        pool.teardown_stop() < pool.workers.len() ==> pool.workers[pool.teardown_stop()].blocks_teardown(),
        forall|id: int| 0 <= id < pool.teardown_stop() ==> !(#[trigger] pool.workers[id]).blocks_teardown(),
{
    lemma_first_blocked(pool.workers, 0);
}

/// What `first_blocked` finds from `from` on.
proof fn lemma_first_blocked(workers: Seq<WorkerView>, from: int)
    requires
        0 <= from <= workers.len(),
    ensures
        from <= first_blocked(workers, from) <= workers.len(),
        first_blocked(workers, from) < workers.len() ==> workers[first_blocked(
            workers,
            from,
        )].blocks_teardown(),
        forall|id: int|
            from <= id < first_blocked(workers, from) ==> !(#[trigger] workers[id]).blocks_teardown(),
    decreases workers.len() - from,
{
    if from < workers.len() && !workers[from].blocks_teardown() {
        lemma_first_blocked(workers, from + 1);
    }
}

/// Teardown waits for every worker thread. It reports completion only when
/// no thread runs any more; while a thread runs it names the first such
/// worker to wait for; and in a pool whose handles are all taken no worker
/// thread is running.
pub proof fn lemma_teardown_waits_for_every_worker<J>(pool: PoolView<J>)
    requires
        pool.inv(),
    ensures
        pool.shutdown_result() == Ok::<Shutdown, PoolError>(Shutdown::Complete) ==> pool.shutdown().all_joined(),
        pool.shutdown_result() == Ok::<Shutdown, PoolError>(Shutdown::Complete) ==> forall|id: int| !pool.shutdown().runs(id),
        forall|id: int| pool.runs(id) ==> pool.shutdown_result() != Ok::<Shutdown, PoolError>(Shutdown::Complete),
        forall|id: usize|
            pool.shutdown_result() == Ok::<Shutdown, PoolError>(Shutdown::WaitFor(id)) ==> pool.runs(id as int),
        pool.all_joined() ==> forall|id: int| !pool.runs(id),
        !pool.shutdown().accepting(),
{
    lemma_teardown_stop(pool);
    let stop = pool.teardown_stop();
    if stop >= pool.workers.len() {
        assert forall|id: int| pool.has_worker(id) implies !pool.runs(id) by {
            assert(!pool.workers[id].blocks_teardown());
            assert(pool.workers[id].inv());
        }
    }
    if pool.all_joined() {
        assert forall|id: int| !pool.runs(id) by {
            if pool.has_worker(id) {
                assert(pool.workers[id].inv());
            }
        }
    }
}

/// Queued work is drained, not abandoned: a worker stops only when the
/// channel is closed and nothing is pending, so while a job waits no idle
/// worker is told to stop, and a pool in which a worker has stopped holds
/// no pending job.
pub proof fn lemma_no_worker_stops_before_the_queue_is_empty<J>(pool: PoolView<J>, id: int)
    requires
        pool.inv(),
        pool.has_worker(id),
    ensures
        pool.workers[id].state == WorkerState::Stopped ==> pool.channel.queue.len() == 0
            && !pool.accepting(),
        pool.workers[id].state == WorkerState::Idle && pool.receive(id).workers[id].state
            == WorkerState::Stopped ==> pool.channel.queue.len() == 0 && !pool.accepting(),
        pool.channel.queue.len() > 0 ==> !(pool.received() is Disconnected),
{
}

/// Jobs leave the queue in the order of their submission: the jobs handed
/// to workers so far, in the order of the hand-out, are the first of the
/// accepted jobs, and the pending ones follow in the order of acceptance.
pub proof fn lemma_jobs_leave_in_submission_order<J>(pool: PoolView<J>)
    requires
        pool.inv(),
    ensures
        pool.channel.accepted == pool.channel.delivered + pool.channel.queue,
        pool.channel.delivered.len() <= pool.channel.accepted.len(),
        forall|k: int| 0 <= k < pool.channel.delivered.len() ==> pool.channel.delivered[k] == pool.channel.accepted[k],
        forall|k: int|
            0 <= k < pool.channel.queue.len() ==> pool.channel.queue[k] == pool.channel.accepted[pool.channel.delivered.len() + k],
{
}

/// Of two jobs submitted one after the other, the first leaves the queue
/// first: a submitted job waits behind everything that was pending before
/// it, and a worker always gets the oldest pending job.
pub proof fn lemma_later_job_waits_behind_earlier<J>(pool: PoolView<J>, first: J, second: J)
    requires
        pool.inv(),
        pool.accepting(),
    ensures
        pool.execute(first).execute(second).channel.queue == pool.channel.queue.push(first).push(second),
        pool.channel.queue.len() == 0 ==> pool.execute(first).execute(second).received() == Received::Job(first),
        pool.channel.queue.len() == 0 ==> forall|id: int|
            pool.execute(first).execute(second).receive(id).received() == Received::Job(second),
{
}

} // verus!
