//! Teardown can always complete. From every state in which no job has
//! failed abnormally there is a schedule, without any further submission,
//! that lets the running jobs return, drains the queue, stops the workers
//! and joins them all. Nothing in the pool can keep teardown waiting for
//! ever, as long as every job returns.

use crate::laws::{
    lemma_every_job_runs_exactly_once, lemma_step_keeps_invariant, lemma_teardown_stop, PoolStep,
};
use crate::model::{PoolError, PoolView, Shutdown};
use crate::worker::WorkerState;
use vstd::prelude::*;

verus! {

impl<J> PoolView<J> {
    /// No worker has a job: each one waits, or has stopped.
    pub open spec fn settled(self) -> bool {
        forall|id: int|
            self.has_worker(id) ==> (#[trigger] self.workers[id]).state == WorkerState::Idle
                || self.workers[id].state == WorkerState::Stopped
    }
}

/// A schedule of one step does that step.
pub proof fn lemma_run_one<J>(pool: PoolView<J>, step: PoolStep<J>)
    ensures
        pool.run(seq![step]) == pool.step(step),
        pool.admits_all(seq![step]) == pool.admits(step),
{
    let steps = seq![step];
    assert(steps.drop_last() =~= Seq::<PoolStep<J>>::empty());
    assert(steps.last() == step);
    assert(pool.run(steps.drop_last()) == pool);
    assert(pool.admits_all(steps.drop_last()));
}

/// Two schedules, one after the other, make one schedule.
pub proof fn lemma_run_concat<J>(
    pool: PoolView<J>,
    first: Seq<PoolStep<J>>,
    second: Seq<PoolStep<J>>,
)
    ensures
        pool.run(first + second) == pool.run(first).run(second),
        pool.admits_all(first + second) == (pool.admits_all(first) && pool.run(first).admits_all(
            second,
        )),
    decreases second.len(),
{
    if second.len() == 0 {
        assert(first + second =~= first);
    } else {
        lemma_run_concat(pool, first, second.drop_last());
        assert((first + second).drop_last() =~= first + second.drop_last());
        assert((first + second).last() == second.last());
    }
}

/// A step followed by a schedule.
proof fn lemma_step_then_run<J>(pool: PoolView<J>, step: PoolStep<J>, rest: Seq<PoolStep<J>>)
    requires
        pool.admits(step),
        pool.step(step).admits_all(rest),
    ensures
        pool.admits_all(seq![step] + rest),
        pool.run(seq![step] + rest) == pool.step(step).run(rest),
{
    lemma_run_one(pool, step);
    lemma_run_concat(pool, seq![step], rest);
}

/// The running jobs can return: a schedule of returns after which no
/// worker has a job.
proof fn lemma_running_jobs_can_return<J>(pool: PoolView<J>, from: int) -> (steps: Seq<PoolStep<J>>)
    requires
        pool.inv(),
        pool.no_worker_panicked(),
        0 <= from <= pool.workers.len(),
        forall|id: int| 0 <= id < from ==> (#[trigger] pool.workers[id]).state != WorkerState::Busy,
    ensures
        pool.admits_all(steps),
        pool.run(steps).inv(),
        pool.run(steps).settled(),
        pool.run(steps).channel == pool.channel,
    decreases pool.workers.len() - from,
{
    if from == pool.workers.len() {
        assert forall|id: int| pool.has_worker(id) implies (#[trigger] pool.workers[id]).state
            == WorkerState::Idle || pool.workers[id].state == WorkerState::Stopped by {
            assert(pool.workers[id].state != WorkerState::Busy);
        }
        Seq::empty()
    } else if pool.workers[from].state == WorkerState::Busy {
        let step = PoolStep::Complete(from);
        let next = pool.step(step);
        lemma_step_keeps_invariant(pool, step);
        assert forall|id: int| next.has_worker(id) implies (#[trigger] next.workers[id]).state
            != WorkerState::Panicked by {
            assert(pool.workers[id].state != WorkerState::Panicked);
        }
        assert forall|id: int| 0 <= id < from + 1 implies (#[trigger] next.workers[id]).state
            != WorkerState::Busy by {
            if id < from {
                assert(pool.workers[id].state != WorkerState::Busy);
            }
        }
        let rest = lemma_running_jobs_can_return(next, from + 1);
        lemma_step_then_run(pool, step, rest);
        seq![step] + rest
    } else {
        assert forall|id: int| 0 <= id < from + 1 implies (#[trigger] pool.workers[id]).state
            != WorkerState::Busy by {}
        lemma_running_jobs_can_return(pool, from + 1)
    }
}

/// The queue can be drained: a schedule in which the first worker takes
/// and finishes one pending job after the other.
proof fn lemma_queue_can_be_drained<J>(pool: PoolView<J>) -> (steps: Seq<PoolStep<J>>)
    requires
        pool.inv(),
        pool.settled(),
    ensures
        pool.admits_all(steps),
        pool.run(steps).inv(),
        pool.run(steps).settled(),
        pool.run(steps).channel.queue.len() == 0,
        pool.run(steps).channel.open == pool.channel.open,
        pool.run(steps).channel.accepted == pool.channel.accepted,
    decreases pool.channel.queue.len(),
{
    if pool.channel.queue.len() == 0 {
        Seq::empty()
    } else {
        assert(pool.workers[0].state == WorkerState::Idle);
        let take = PoolStep::Receive(0);
        let taken = pool.step(take);
        lemma_step_keeps_invariant(pool, take);
        let give = PoolStep::Complete(0);
        let given = taken.step(give);
        lemma_step_keeps_invariant(taken, give);
        assert forall|id: int| given.has_worker(id) implies (#[trigger] given.workers[id]).state
            == WorkerState::Idle || given.workers[id].state == WorkerState::Stopped by {
            if id != 0 {
                assert(pool.workers[id].state == WorkerState::Idle || pool.workers[id].state
                    == WorkerState::Stopped);
            }
        }
        let rest = lemma_queue_can_be_drained(given);
        lemma_step_then_run(taken, give, rest);
        lemma_step_then_run(pool, take, seq![give] + rest);
        seq![take] + (seq![give] + rest)
    }
}

/// The waiting workers can stop: with the channel closed and empty, a
/// schedule in which each of them asks once more and is told to stop.
proof fn lemma_idle_workers_can_stop<J>(pool: PoolView<J>, from: int) -> (steps: Seq<PoolStep<J>>)
    requires
        pool.inv(),
        pool.settled(),
        !pool.accepting(),
        pool.channel.queue.len() == 0,
        0 <= from <= pool.workers.len(),
        forall|id: int| 0 <= id < from ==> (#[trigger] pool.workers[id]).state == WorkerState::Stopped,
    ensures
        pool.admits_all(steps),
        pool.run(steps).inv(),
        pool.run(steps).all_stopped(),
        pool.run(steps).channel == pool.channel,
    decreases pool.workers.len() - from,
{
    if from == pool.workers.len() {
        Seq::empty()
    } else if pool.workers[from].state == WorkerState::Idle {
        let step = PoolStep::Receive(from);
        let next = pool.step(step);
        lemma_step_keeps_invariant(pool, step);
        assert forall|id: int| next.has_worker(id) implies (#[trigger] next.workers[id]).state
            == WorkerState::Idle || next.workers[id].state == WorkerState::Stopped by {
            if id != from {
                assert(pool.workers[id].state == WorkerState::Idle || pool.workers[id].state
                    == WorkerState::Stopped);
            }
        }
        assert forall|id: int| 0 <= id < from + 1 implies (#[trigger] next.workers[id]).state
            == WorkerState::Stopped by {
            if id < from {
                assert(pool.workers[id].state == WorkerState::Stopped);
            }
        }
        let rest = lemma_idle_workers_can_stop(next, from + 1);
        lemma_step_then_run(pool, step, rest);
        seq![step] + rest
    } else {
        assert forall|id: int| 0 <= id < from + 1 implies (#[trigger] pool.workers[id]).state
            == WorkerState::Stopped by {}
        lemma_idle_workers_can_stop(pool, from + 1)
    }
}

/// Teardown can always complete. For every pool in which no job has failed
/// abnormally there is a schedule that submits nothing and ends with every
/// worker stopped and joined, so that a further call of teardown reports
/// completion. By then every job that the pool had accepted has run, and
/// has run once.
pub proof fn lemma_teardown_can_complete<J>(pool: PoolView<J>) -> (steps: Seq<PoolStep<J>>)
    requires
        pool.inv(),
        pool.no_worker_panicked(),
    ensures
        pool.admits_all(steps),
        pool.run(steps).inv(),
        pool.run(steps).all_stopped(),
        pool.run(steps).all_joined(),
        pool.run(steps).shutdown_result() == Ok::<Shutdown, PoolError>(Shutdown::Complete),
        pool.run(steps).channel.accepted == pool.channel.accepted,
        pool.run(steps).channel.delivered == pool.channel.accepted,
        pool.run(steps).finished.no_duplicates(),
        pool.run(steps).finished.len() == pool.channel.accepted.len(),
        forall|t: nat| t < pool.channel.accepted.len() <==> pool.run(steps).finished.contains(t),
{
    // Teardown begins: the channel is closed.
    let begin = PoolStep::Shutdown;
    let closed = pool.step(begin);
    lemma_step_keeps_invariant(pool, begin);
    assert forall|id: int| closed.has_worker(id) implies (#[trigger] closed.workers[id]).state
        != WorkerState::Panicked by {
        assert(pool.workers[id].state != WorkerState::Panicked);
    }

    // The running jobs return, the queue is drained, the workers stop.
    let finish = lemma_running_jobs_can_return(closed, 0);
    let settled = closed.run(finish);
    let drain = lemma_queue_can_be_drained(settled);
    let drained = settled.run(drain);
    let stops = lemma_idle_workers_can_stop(drained, 0);
    let stopped = drained.run(stops);

    // Teardown is called again and passes every worker.
    let end = PoolStep::Shutdown;
    let joined = stopped.step(end);
    lemma_step_keeps_invariant(stopped, end);
    lemma_teardown_stop(stopped);
    assert(stopped.teardown_stop() == stopped.workers.len()) by {
        if stopped.teardown_stop() < stopped.workers.len() {
            assert(stopped.workers[stopped.teardown_stop()].state == WorkerState::Stopped);
        }
    }
    assert forall|id: int| joined.has_worker(id) implies (#[trigger] joined.workers[id]).state
        == WorkerState::Stopped && joined.workers[id].joined by {
        assert(stopped.workers[id].state == WorkerState::Stopped);
    }
    lemma_teardown_stop(joined);
    assert(joined.teardown_stop() == joined.workers.len()) by {
        if joined.teardown_stop() < joined.workers.len() {
            assert(joined.workers[joined.teardown_stop()].joined);
        }
    }
    assert forall|id: int| joined.has_worker(id) implies (#[trigger] joined.workers[id]).state
        != WorkerState::Panicked by {
        assert(joined.workers[id].state == WorkerState::Stopped);
    }
    lemma_every_job_runs_exactly_once(joined);

    let tail = stops + seq![end];
    lemma_run_one(stopped, end);
    lemma_run_concat(drained, stops, seq![end]);
    lemma_run_concat(settled, drain, tail);
    lemma_run_concat(closed, finish, drain + tail);
    lemma_step_then_run(pool, begin, finish + (drain + tail));
    seq![begin] + (finish + (drain + tail))
}

} // verus!
