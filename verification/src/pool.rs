//! The worker pool: a fixed set of workers, the job channel that feeds
//! them, submission, and teardown.
//!
//! The pool is a sequential state machine. It spawns no thread and never
//! blocks: each place where a thread would block is an answer that tells the
//! caller to wait and ask again (`Received::Empty` for a worker,
//! `Shutdown::WaitFor` for teardown). A program that runs the pool with real
//! threads keeps it behind a lock, lets each worker thread call `receive`,
//! run the job outside the lock and call `complete`, and lets the owner
//! call `execute` and, at the end, `shutdown`.

use crate::channel::{JobChannel, Received};
use crate::model::{first_blocked, PoolError, PoolView, Shutdown};
use crate::worker::{JoinOutcome, Worker, WorkerState, WorkerView};
use vstd::prelude::*;

verus! {

/// A pool of a fixed number of workers that run jobs of type `J`.
pub struct ThreadPool<J> {
    workers: Vec<Worker>,
    channel: JobChannel<J>,
    tickets: Ghost<Seq<nat>>,
    finished: Ghost<Seq<nat>>,
}

impl<J> View for ThreadPool<J> {
    type V = PoolView<J>;

    closed spec fn view(&self) -> PoolView<J> {
        PoolView {
            workers: Seq::new(self.workers@.len(), |i: int| self.workers@[i]@),
            tickets: self.tickets@,
            channel: self.channel@,
            finished: self.finished@,
        }
    }
}

impl<J> ThreadPool<J> {
    /// Creates a pool of `n_workers` idle workers, numbered from 0 in the
    /// order of their construction, with an open and empty job channel.
    ///
    /// A pool without workers could never run a job, so `n_workers` must
    /// be at least 1.
    pub fn new(n_workers: usize) -> (pool: Self)
        requires
            n_workers > 0,
        ensures
            pool@ == PoolView::<J>::fresh(n_workers as nat),
            pool@.inv(),
    {
        let channel = JobChannel::new();
        let mut workers: Vec<Worker> = Vec::with_capacity(n_workers);
        for id in 0..n_workers
            invariant
                workers@.len() == id,
                forall|i: int| 0 <= i < id ==> (#[trigger] workers@[i])@ == WorkerView::fresh(i as nat),
        {
            workers.push(Worker::new(id));
        }
        let pool = ThreadPool {
            workers,
            channel,
            tickets: Ghost(Seq::new(n_workers as nat, |i: int| 0nat)),
            finished: Ghost(Seq::empty()),
        };
        proof {
            assert(pool@.workers =~= PoolView::<J>::fresh(n_workers as nat).workers);
            PoolView::<J>::lemma_fresh_inv(n_workers as nat);
        }
        pool
    }

    /// The number of workers.
    pub fn size(&self) -> (n: usize)
        ensures
            n == self@.workers.len(),
    {
        self.workers.len()
    }

    /// Whether the pool still accepts jobs: teardown has not begun.
    pub fn is_accepting(&self) -> (accepting: bool)
        ensures
            accepting == self@.accepting(),
    {
        self.channel.is_open()
    }

    /// The number of jobs that wait in the queue.
    pub fn pending(&self) -> (n: usize)
        ensures
            n == self@.channel.queue.len(),
    {
        self.channel.len()
    }

    /// What the thread of worker `id` is doing.
    pub fn worker_state(&self, id: usize) -> (state: WorkerState)
        requires
            self@.has_worker(id as int),
        ensures
            state == self@.workers[id as int].state,
    {
        self.workers[id].state()
    }

    /// Whether the thread handle of worker `id` has been taken.
    pub fn is_joined(&self, id: usize) -> (joined: bool)
        requires
            self@.has_worker(id as int),
        ensures
            joined == self@.workers[id as int].joined,
    {
        self.workers[id].is_joined()
    }

    /// Whether the thread of some worker has not ended. While one has not,
    /// the receiving side of the channel exists and a submission cannot
    /// fail.
    pub fn has_live_receiver(&self) -> (alive: bool)
        ensures
            alive == self@.receiver_alive(),
    {
        let n = self.workers.len();
        let mut id: usize = 0;
        while id < n
            invariant
                n == self.workers@.len(),
                id <= n,
                forall|i: int| 0 <= i < id ==> !self@.runs(i),
            decreases n - id,
        {
            if self.workers[id].state().is_running() {
                assert(self@.runs(id as int));
                return true;
            }
            id += 1;
        }
        false
    }

    /// Submits a job. While the pool accepts work the job joins the end of
    /// the queue; once teardown has begun the job is dropped and nothing
    /// changes.
    ///
    /// A pool that accepts work while every worker thread has died cannot
    /// take the job: that state is a defect of the program, and this
    /// function is not to be called in it.
    pub fn execute(&mut self, job: J)
        requires
            old(self)@.inv(),
            old(self)@.accepting() ==> old(self)@.receiver_alive(),
        ensures
            final(self)@ == old(self)@.execute(job),
            final(self)@.inv(),
    {
        proof {
            self@.lemma_execute_inv(job);
        }
        if self.channel.is_open() {
            let _ = self.channel.send(job);
        }
    }

    /// Worker `id` asks the channel for its next job. A job that it gets
    /// has left the queue and belongs to this worker alone, which is busy
    /// from now on; with a closed and empty channel the worker stops; with
    /// an open and empty one it stays idle, and its thread waits.
    pub fn receive(&mut self, id: usize) -> (received: Received<J>)
        requires
            old(self)@.inv(),
            old(self)@.has_worker(id as int),
            old(self)@.workers[id as int].state == WorkerState::Idle,
        ensures
            final(self)@ == old(self)@.receive(id as int),
            final(self)@.inv(),
            received == old(self)@.received(),
    {
        proof {
            self@.lemma_receive_inv(id as int);
        }
        let ghost ticket = self.channel@.delivered.len();
        let received = self.channel.recv();
        let mut worker = self.workers[id];
        worker.on_received(&received);
        self.workers.set(id, worker);
        self.tickets = Ghost(
            if received is Job {
                self.tickets@.update(id as int, ticket)
            } else {
                self.tickets@
            },
        );
        assert(self@.workers =~= old(self)@.receive(id as int).workers);
        received
    }

    /// The job of worker `id` returned: the worker is idle again.
    pub fn complete(&mut self, id: usize)
        requires
            old(self)@.inv(),
            old(self)@.has_worker(id as int),
            old(self)@.workers[id as int].state == WorkerState::Busy,
        ensures
            final(self)@ == old(self)@.complete(id as int),
            final(self)@.inv(),
    {
        proof {
            self@.lemma_complete_inv(id as int);
        }
        let mut worker = self.workers[id];
        worker.finish();
        self.workers.set(id, worker);
        self.finished = Ghost(self.finished@.push(self.tickets@[id as int]));
        assert(self@.workers =~= old(self)@.complete(id as int).workers);
    }

    /// The job of worker `id` failed abnormally and ended the worker's
    /// thread. The other workers go on serving the queue.
    pub fn panicked(&mut self, id: usize)
        requires
            old(self)@.inv(),
            old(self)@.has_worker(id as int),
            old(self)@.workers[id as int].state == WorkerState::Busy,
        ensures
            final(self)@ == old(self)@.panicked(id as int),
            final(self)@.inv(),
    {
        proof {
            self@.lemma_panicked_inv(id as int);
        }
        let mut worker = self.workers[id];
        worker.crash();
        self.workers.set(id, worker);
        assert(self@.workers =~= old(self)@.panicked(id as int).workers);
    }

    /// Tears the pool down as far as it can without waiting. The sending
    /// side of the channel is closed, once. Then the workers are joined in
    /// the order of their construction: one whose handle was taken before
    /// is skipped, one whose thread returned is joined, one whose thread
    /// died is joined and ends teardown with an error, and one whose
    /// thread still runs ends this call with `Shutdown::WaitFor`.
    pub fn shutdown(&mut self) -> (result: Result<Shutdown, PoolError>)
        requires
            old(self)@.inv(),
        ensures
            final(self)@ == old(self)@.shutdown(),
            final(self)@.inv(),
            result == old(self)@.shutdown_result(),
    {
        proof {
            self@.lemma_shutdown_inv();
        }
        self.channel.close();
        let n = self.workers.len();
        let mut id: usize = 0;
        while id < n
            invariant
                n == self.workers@.len(),
                n == old(self).workers@.len(),
                id <= n,
                old(self)@.shutdown().inv(),
                self.channel@ == old(self).channel@.close(),
                self.tickets@ == old(self).tickets@,
                self.finished@ == old(self).finished@,
                first_blocked(old(self)@.workers, 0) == first_blocked(old(self)@.workers, id as int),
                forall|i: int| 0 <= i < id ==> (#[trigger] self.workers@[i])@ == old(self).workers@[i]@.join(),
                forall|i: int| id <= i < n ==> (#[trigger] self.workers@[i])@ == old(self).workers@[i]@,
            decreases n - id,
        {
            let mut worker = self.workers[id];
            match worker.join() {
                JoinOutcome::Running => {
                    assert(self@.workers =~= old(self)@.shutdown().workers);
                    return Ok(Shutdown::WaitFor(id));
                },
                JoinOutcome::Panicked => {
                    self.workers.set(id, worker);
                    assert(self@.workers =~= old(self)@.shutdown().workers);
                    return Err(PoolError::WorkerPanicked { id });
                },
                _ => {
                    self.workers.set(id, worker);
                },
            }
            id += 1;
        }
        assert(self@.workers =~= old(self)@.shutdown().workers);
        Ok(Shutdown::Complete)
    }
}

} // verus!
