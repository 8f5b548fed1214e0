//! The pool as a mathematical value, its transitions, and the invariant
//! that every transition keeps.
//!
//! Jobs are told apart by their ticket: the position of a job in the order
//! in which the pool accepted it. The first accepted job has ticket 0.

use crate::channel::{ChannelView, Received};
use crate::worker::{WorkerState, WorkerView};
use vstd::prelude::*;

verus! {

/// How far a call of teardown came.
#[derive(Clone, Copy, Debug, PartialEq, Eq, Structural)]
pub enum Shutdown {
    /// The channel is closed and every worker is joined.
    Complete,
    /// The channel is closed and the workers before this one are joined,
    /// but the thread of this worker has not ended: the caller waits for
    /// it and calls again.
    WaitFor(usize),
}

/// The failure that teardown reports.
#[derive(Clone, Copy, Debug, PartialEq, Eq, Structural)]
pub enum PoolError {
    /// The thread of this worker terminated abnormally.
    WorkerPanicked { id: usize },
}

/// The pool as a mathematical value.
pub struct PoolView<J> {
    /// The workers, in the order of their construction.
    pub workers: Seq<WorkerView>,
    /// For each worker, the ticket of the job that it took last. It means
    /// something only while the worker has a job.
    pub tickets: Seq<nat>,
    /// The job channel.
    pub channel: ChannelView<J>,
    /// The tickets of the jobs that ran to completion, in the order in
    /// which they completed.
    pub finished: Seq<nat>,
}

/// The position of the first worker, at `from` or after it, that teardown
/// cannot pass; the number of workers if there is none.
pub open spec fn first_blocked(workers: Seq<WorkerView>, from: int) -> int
    decreases workers.len() - from,
{
    if from < 0 || from >= workers.len() {
        workers.len() as int
    } else if workers[from].blocks_teardown() {
        from
    } else {
        first_blocked(workers, from + 1)
    }
}

impl<J> PoolView<J> {
    /// A pool as it is constructed: `n` idle workers numbered from 0, an
    /// open channel, and no history.
    pub open spec fn fresh(n: nat) -> Self {
        PoolView {
            workers: Seq::new(n, |i: int| WorkerView::fresh(i as nat)),
            tickets: Seq::new(n, |i: int| 0nat),
            channel: ChannelView::fresh(),
            finished: Seq::empty(),
        }
    }

    /// The sending side of the channel is present: teardown has not begun.
    pub open spec fn accepting(self) -> bool {
        self.channel.open
    }

    /// `id` names a worker of this pool.
    pub open spec fn has_worker(self, id: int) -> bool {
        0 <= id < self.workers.len()
    }

    /// Worker `id` took the job with this ticket, and the job has not
    /// returned.
    pub open spec fn holds(self, id: int, ticket: nat) -> bool {
        &&& self.has_worker(id)
        &&& self.workers[id].has_job()
        &&& self.tickets[id] == ticket
    }

    /// The job with this ticket left the queue and is not lost: it ran to
    /// completion, or a worker holds it.
    pub open spec fn accounted(self, ticket: nat) -> bool {
        self.finished.contains(ticket) || exists|id: int| self.holds(id, ticket)
    }

    /// The thread of worker `id` has not ended.
    pub open spec fn runs(self, id: int) -> bool {
        self.has_worker(id) && self.workers[id].state.is_running()
    }

    /// Some worker's thread has not ended, so the receiving side of the
    /// channel is still there.
    pub open spec fn receiver_alive(self) -> bool {
        exists|id: int| self.runs(id)
    }

    /// Every worker's thread returned normally.
    pub open spec fn all_stopped(self) -> bool {
        forall|id: int| self.has_worker(id) ==> (#[trigger] self.workers[id]).state == WorkerState::Stopped
    }

    /// Every worker's thread handle has been taken.
    pub open spec fn all_joined(self) -> bool {
        forall|id: int| self.has_worker(id) ==> (#[trigger] self.workers[id]).joined
    }

    /// The pool after a submission: the job is queued while the pool
    /// accepts work, and nothing changes once teardown has begun.
    pub open spec fn execute(self, job: J) -> Self {
        PoolView { channel: self.channel.send(job), ..self }
    }

    /// What worker `id` gets when it asks the channel for a job.
    pub open spec fn received(self) -> Received<J> {
        self.channel.recv_result()
    }

    /// The pool after worker `id` asked the channel for a job. A job that
    /// it gets leaves the queue, and its ticket is the number of jobs
    /// handed out before.
    pub open spec fn receive(self, id: int) -> Self {
        PoolView {
            workers: self.workers.update(id, self.workers[id].on_received(self.received())),
            tickets: if self.received() is Job {
                self.tickets.update(id, self.channel.delivered.len())
            } else {
                self.tickets
            },
            channel: self.channel.after_recv(),
            ..self
        }
    }

    /// The pool after the job of worker `id` returned.
    pub open spec fn complete(self, id: int) -> Self {
        PoolView {
            workers: self.workers.update(id, self.workers[id].finish()),
            finished: self.finished.push(self.tickets[id]),
            ..self
        }
    }

    /// The pool after the job of worker `id` failed abnormally.
    pub open spec fn panicked(self, id: int) -> Self {
        PoolView { workers: self.workers.update(id, self.workers[id].crash()), ..self }
    }

    /// The position at which a call of teardown ends: the first worker, in
    /// the order of construction, whose handle is there and whose thread
    /// did not return normally.
    pub open spec fn teardown_stop(self) -> int {
        first_blocked(self.workers, 0)
    }

    /// The pool after a call of teardown: the channel is closed, and the
    /// handles are taken from the workers before the stop and from a
    /// worker at the stop whose thread has ended.
    pub open spec fn shutdown(self) -> Self {
        PoolView {
            workers: Seq::new(
                self.workers.len(),
                |i: int|
                    if i <= self.teardown_stop() {
                        self.workers[i].join()
                    } else {
                        self.workers[i]
                    },
            ),
            channel: self.channel.close(),
            ..self
        }
    }

    /// What a call of teardown reports.
    pub open spec fn shutdown_result(self) -> Result<Shutdown, PoolError> {
        let stop = self.teardown_stop();
        if stop >= self.workers.len() {
            Ok(Shutdown::Complete)
        } else if self.workers[stop].state == WorkerState::Panicked {
            Err(PoolError::WorkerPanicked { id: stop as usize })
        } else {
            Ok(Shutdown::WaitFor(stop as usize))
        }
    }

    /// What holds of a pool in every state that it can reach.
    pub open spec fn inv(self) -> bool {
        &&& 0 < self.workers.len() <= usize::MAX
        &&& self.tickets.len() == self.workers.len()
        &&& self.channel.inv()
        &&& forall|i: int|
            self.has_worker(i) ==> (#[trigger] self.workers[i]).id == i && self.workers[i].inv()
        &&& forall|i: int|
            self.has_worker(i) && (#[trigger] self.workers[i]).state == WorkerState::Stopped
                ==> !self.channel.open && self.channel.queue.len() == 0
        &&& self.finished.no_duplicates()
        &&& forall|k: int|
            0 <= k < self.finished.len() ==> #[trigger] self.finished[k]
                < self.channel.delivered.len()
        &&& forall|i: int|
            self.has_worker(i) && (#[trigger] self.workers[i]).has_job() ==> self.tickets[i]
                < self.channel.delivered.len() && !self.finished.contains(self.tickets[i])
        &&& forall|i: int, j: int|
            self.has_worker(i) && self.has_worker(j) && i != j && (#[trigger] self.workers[i]).has_job()
                && (#[trigger] self.workers[j]).has_job() ==> self.tickets[i] != self.tickets[j]
        &&& forall|t: nat| t < self.channel.delivered.len() ==> #[trigger] self.accounted(t)
    }

    /// A fresh pool with at least one worker meets the invariant.
    pub proof fn lemma_fresh_inv(n: nat)
        requires
            0 < n <= usize::MAX,
        ensures
            Self::fresh(n).inv(),
    {
        let v = Self::fresh(n);
        assert(v.channel.accepted =~= v.channel.delivered + v.channel.queue);
    }

    /// A submission keeps the invariant.
    pub proof fn lemma_execute_inv(self, job: J)
        requires
            self.inv(),
        ensures
            self.execute(job).inv(),
    {
        let next = self.execute(job);
        self.channel.lemma_send_inv(job);
        assert forall|t: nat| t < next.channel.delivered.len() implies #[trigger] next.accounted(t) by {
            assert(self.accounted(t));
            if !self.finished.contains(t) {
                let id = choose|id: int| self.holds(id, t);
                assert(next.holds(id, t));
            }
        }
    }

    /// A worker's attempt to receive keeps the invariant.
    pub proof fn lemma_receive_inv(self, id: int)
        requires
            self.inv(),
            self.has_worker(id),
            self.workers[id].state == WorkerState::Idle,
        ensures
            self.receive(id).inv(),
    {
        let next = self.receive(id);
        let handed_out = self.channel.delivered.len();
        self.channel.lemma_recv_inv();
        assert forall|i: int| next.has_worker(i) implies (#[trigger] next.workers[i]).id == i
            && next.workers[i].inv() by {
            assert(self.workers[i].id == i && self.workers[i].inv());
        }
        assert forall|i: int|
            next.has_worker(i) && (#[trigger] next.workers[i]).state
                == WorkerState::Stopped implies !next.channel.open && next.channel.queue.len()
            == 0 by {
            if i != id {
                assert(self.workers[i].state == WorkerState::Stopped);
            }
        }
        assert forall|i: int| next.has_worker(i) && (#[trigger] next.workers[i]).has_job() implies
            next.tickets[i] < next.channel.delivered.len() && !next.finished.contains(
            next.tickets[i],
        ) by {
            if i != id {
                assert(self.workers[i].has_job());
            } else {
                if self.finished.contains(handed_out) {
                    let k = choose|k: int| 0 <= k < self.finished.len() && self.finished[k] == handed_out;
                    assert(self.finished[k] < handed_out);
                }
            }
        }
        assert forall|i: int, j: int|
            next.has_worker(i) && next.has_worker(j) && i != j && (#[trigger] next.workers[i]).has_job()
                && (#[trigger] next.workers[j]).has_job() implies next.tickets[i]
            != next.tickets[j] by {
            if i != id {
                assert(self.workers[i].has_job());
            }
            if j != id {
                assert(self.workers[j].has_job());
            }
        }
        assert forall|t: nat| t < next.channel.delivered.len() implies #[trigger] next.accounted(t) by {
            if t < handed_out {
                assert(self.accounted(t));
                if !self.finished.contains(t) {
                    let holder = choose|holder: int| self.holds(holder, t);
                    assert(self.workers[holder].has_job());
                    assert(next.holds(holder, t));
                }
            } else {
                assert(next.holds(id, t));
            }
        }
    }

    /// The return of a job keeps the invariant.
    pub proof fn lemma_complete_inv(self, id: int)
        requires
            self.inv(),
            self.has_worker(id),
            self.workers[id].state == WorkerState::Busy,
        ensures
            self.complete(id).inv(),
    {
        let next = self.complete(id);
        let ticket = self.tickets[id];
        assert(self.workers[id].has_job());
        assert forall|i: int| next.has_worker(i) implies (#[trigger] next.workers[i]).id == i
            && next.workers[i].inv() by {
            assert(self.workers[i].id == i && self.workers[i].inv());
        }
        assert forall|i: int|
            next.has_worker(i) && (#[trigger] next.workers[i]).state
                == WorkerState::Stopped implies !next.channel.open && next.channel.queue.len()
            == 0 by {
            assert(self.workers[i].state == WorkerState::Stopped);
        }
        assert(next.finished.no_duplicates()) by {
            assert forall|a: int, b: int|
                0 <= a < next.finished.len() && 0 <= b < next.finished.len() && a != b implies next.finished[a]
                != next.finished[b] by {
                if a < self.finished.len() && b < self.finished.len() {
                } else if a < self.finished.len() {
                    assert(self.finished.contains(self.finished[a]));
                } else {
                    assert(self.finished.contains(self.finished[b]));
                }
            }
        }
        assert forall|i: int| next.has_worker(i) && (#[trigger] next.workers[i]).has_job() implies
            next.tickets[i] < next.channel.delivered.len() && !next.finished.contains(
            next.tickets[i],
        ) by {
            assert(i != id);
            assert(self.workers[i].has_job());
            if next.finished.contains(next.tickets[i]) {
                let k = choose|k: int| 0 <= k < next.finished.len() && next.finished[k] == next.tickets[i];
                if k < self.finished.len() {
                    assert(self.finished.contains(self.tickets[i]));
                }
            }
        }
        assert forall|i: int, j: int|
            next.has_worker(i) && next.has_worker(j) && i != j && (#[trigger] next.workers[i]).has_job()
                && (#[trigger] next.workers[j]).has_job() implies next.tickets[i]
            != next.tickets[j] by {
            assert(self.workers[i].has_job());
            assert(self.workers[j].has_job());
        }
        assert forall|t: nat| t < next.channel.delivered.len() implies #[trigger] next.accounted(t) by {
            assert(self.accounted(t));
            if self.finished.contains(t) {
                let k = choose|k: int| 0 <= k < self.finished.len() && self.finished[k] == t;
                assert(next.finished[k] == t);
            } else {
                let holder = choose|holder: int| self.holds(holder, t);
                if holder == id {
                    assert(next.finished[self.finished.len() as int] == t);
                } else {
                    assert(next.holds(holder, t));
                }
            }
        }
    }

    /// The abnormal end of a job keeps the invariant.
    pub proof fn lemma_panicked_inv(self, id: int)
        requires
            self.inv(),
            self.has_worker(id),
            self.workers[id].state == WorkerState::Busy,
        ensures
            self.panicked(id).inv(),
    {
        let next = self.panicked(id);
        assert(self.workers[id].has_job());
        assert forall|i: int| next.has_worker(i) implies (#[trigger] next.workers[i]).id == i
            && next.workers[i].inv() by {
            assert(self.workers[i].id == i && self.workers[i].inv());
        }
        assert forall|i: int|
            next.has_worker(i) && (#[trigger] next.workers[i]).state
                == WorkerState::Stopped implies !next.channel.open && next.channel.queue.len()
            == 0 by {
            assert(self.workers[i].state == WorkerState::Stopped);
        }
        assert forall|i: int| next.has_worker(i) && (#[trigger] next.workers[i]).has_job() implies
            next.tickets[i] < next.channel.delivered.len() && !next.finished.contains(
            next.tickets[i],
        ) by {
            assert(self.workers[i].has_job());
        }
        assert forall|i: int, j: int|
            next.has_worker(i) && next.has_worker(j) && i != j && (#[trigger] next.workers[i]).has_job()
                && (#[trigger] next.workers[j]).has_job() implies next.tickets[i]
            != next.tickets[j] by {
            assert(self.workers[i].has_job());
            assert(self.workers[j].has_job());
        }
        assert forall|t: nat| t < next.channel.delivered.len() implies #[trigger] next.accounted(t) by {
            assert(self.accounted(t));
            if !self.finished.contains(t) {
                let holder = choose|holder: int| self.holds(holder, t);
                assert(next.holds(holder, t));
            }
        }
    }

    /// A call of teardown keeps the invariant.
    pub proof fn lemma_shutdown_inv(self)
        requires
            self.inv(),
        ensures
            self.shutdown().inv(),
    {
        let next = self.shutdown();
        assert forall|i: int| next.has_worker(i) implies (#[trigger] next.workers[i]).id == i
            && next.workers[i].inv() by {
            assert(self.workers[i].id == i && self.workers[i].inv());
        }
        assert forall|i: int|
            next.has_worker(i) && (#[trigger] next.workers[i]).state
                == WorkerState::Stopped implies !next.channel.open && next.channel.queue.len()
            == 0 by {
            assert(self.workers[i].state == WorkerState::Stopped);
        }
        assert forall|i: int| next.has_worker(i) && (#[trigger] next.workers[i]).has_job() implies
            next.tickets[i] < next.channel.delivered.len() && !next.finished.contains(
            next.tickets[i],
        ) by {
            assert(self.workers[i].has_job());
        }
        assert forall|i: int, j: int|
            next.has_worker(i) && next.has_worker(j) && i != j && (#[trigger] next.workers[i]).has_job()
                && (#[trigger] next.workers[j]).has_job() implies next.tickets[i]
            != next.tickets[j] by {
            assert(self.workers[i].has_job());
            assert(self.workers[j].has_job());
        }
        assert forall|t: nat| t < next.channel.delivered.len() implies #[trigger] next.accounted(t) by {
            assert(self.accounted(t));
            if !self.finished.contains(t) {
                let holder = choose|holder: int| self.holds(holder, t);
                assert(self.workers[holder].has_job());
                assert(next.holds(holder, t));
            }
        }
    }
}

} // verus!
