//! One worker of the pool: its identifier, what its thread is doing, and
//! whether its thread handle has been taken for joining.
//!
//! A worker is a small state machine. It starts idle, turns busy with each
//! job that it receives and idle again when the job returns, and stops when
//! the channel reports that it is closed and empty. A job that fails
//! abnormally takes the worker's thread with it. Nothing interrupts a job
//! that is running.

use crate::channel::Received;
use vstd::prelude::*;

verus! {

/// What a worker's thread is doing.
#[derive(Clone, Copy, Debug, PartialEq, Eq, Structural)]
pub enum WorkerState {
    /// Waiting on the channel for the next job.
    Idle,
    /// Running a job that it took from the channel.
    Busy,
    /// Returned after the channel reported that it is closed and empty.
    Stopped,
    /// Terminated abnormally inside a job.
    Panicked,
}

impl WorkerState {
    /// The thread has not ended: it waits for a job or runs one.
    pub open spec fn spec_is_running(self) -> bool {
        self == WorkerState::Idle || self == WorkerState::Busy
    }

    /// Whether the thread has not ended.
    #[verifier::when_used_as_spec(spec_is_running)]
    pub fn is_running(self) -> (running: bool)
        ensures
            running == self.spec_is_running(),
    {
        match self {
            WorkerState::Idle => true,
            WorkerState::Busy => true,
            WorkerState::Stopped => false,
            WorkerState::Panicked => false,
        }
    }
}

/// What an attempt to join a worker's thread found.
#[derive(Clone, Copy, Debug, PartialEq, Eq, Structural)]
pub enum JoinOutcome {
    /// The handle had been taken before: there is nothing to join.
    NoThread,
    /// The thread had returned normally. Its handle is taken now.
    Finished,
    /// The thread had terminated abnormally. Its handle is taken now.
    Panicked,
    /// The thread has not ended. The handle stays, and the caller waits.
    Running,
}

/// A worker as a mathematical value.
pub struct WorkerView {
    /// The identifier given at construction.
    pub id: nat,
    /// What the thread is doing.
    pub state: WorkerState,
    /// Whether the thread handle has been taken.
    pub joined: bool,
}

impl WorkerView {
    /// A worker as it is spawned: idle, with its handle in place.
    pub open spec fn fresh(id: nat) -> Self {
        WorkerView { id, state: WorkerState::Idle, joined: false }
    }

    /// A handle is taken only from a thread that has ended.
    pub open spec fn inv(self) -> bool {
        self.joined ==> !self.state.is_running()
    }

    /// The worker took a job that has not returned: it runs it, or it
    /// died in it.
    pub open spec fn has_job(self) -> bool {
        self.state == WorkerState::Busy || self.state == WorkerState::Panicked
    }

    /// Teardown cannot pass this worker without acting: its handle is
    /// still there and its thread has not returned normally.
    pub open spec fn blocks_teardown(self) -> bool {
        !self.joined && self.state != WorkerState::Stopped
    }

    /// The worker after it looked at what the channel gave: busy with a
    /// job, still idle with nothing, stopped with a disconnected channel.
    pub open spec fn on_received<J>(self, received: Received<J>) -> Self {
        match received {
            Received::Job(_) => WorkerView { state: WorkerState::Busy, ..self },
            Received::Empty => self,
            Received::Disconnected => WorkerView { state: WorkerState::Stopped, ..self },
        }
    }

    /// The worker after its job returned.
    pub open spec fn finish(self) -> Self {
        WorkerView { state: WorkerState::Idle, ..self }
    }

    /// The worker after its job failed abnormally.
    pub open spec fn crash(self) -> Self {
        WorkerView { state: WorkerState::Panicked, ..self }
    }

    /// What an attempt to join finds.
    pub open spec fn join_outcome(self) -> JoinOutcome {
        if self.joined {
            JoinOutcome::NoThread
        } else {
            match self.state {
                WorkerState::Stopped => JoinOutcome::Finished,
                WorkerState::Panicked => JoinOutcome::Panicked,
                _ => JoinOutcome::Running,
            }
        }
    }

    /// The worker after an attempt to join: the handle of a thread that
    /// has ended is taken, that of a running thread stays.
    pub open spec fn join(self) -> Self {
        if self.state.is_running() {
            self
        } else {
            WorkerView { joined: true, ..self }
        }
    }

    /// A thread handle is joined at most once: after an attempt that took
    /// the handle, every further attempt finds no thread, and a handle
    /// that is gone stays gone.
    pub proof fn lemma_joined_at_most_once(self)
        ensures
            self.join_outcome() == JoinOutcome::Finished || self.join_outcome()
                == JoinOutcome::Panicked ==> !self.joined && self.join().joined,
            self.join().joined ==> self.join().join_outcome() == JoinOutcome::NoThread,
            self.joined ==> self.join() == self,
            self.inv() ==> self.join().inv(),
    {
    }
}

/// A worker of the pool.
#[derive(Clone, Copy, Debug)]
pub struct Worker {
    id: usize,
    state: WorkerState,
    joined: bool,
}

impl View for Worker {
    type V = WorkerView;

    closed spec fn view(&self) -> WorkerView {
        WorkerView { id: self.id as nat, state: self.state, joined: self.joined }
    }
}

impl Worker {
    /// Creates the worker `id`: idle, with its thread handle in place.
    pub fn new(id: usize) -> (worker: Worker)
        ensures
            worker@ == WorkerView::fresh(id as nat),
    {
        Worker { id, state: WorkerState::Idle, joined: false }
    }

    /// The identifier given at construction.
    pub fn id(&self) -> (id: usize)
        ensures
            id == self@.id,
    {
        self.id
    }

    /// What the thread is doing.
    pub fn state(&self) -> (state: WorkerState)
        ensures
            state == self@.state,
    {
        self.state
    }

    /// Whether the thread handle has been taken.
    pub fn is_joined(&self) -> (joined: bool)
        ensures
            joined == self@.joined,
    {
        self.joined
    }

    /// One turn of the worker's loop, after the channel answered: a job
    /// makes the worker busy, a disconnected channel stops it, and with
    /// nothing pending it goes on waiting.
    pub fn on_received<J>(&mut self, received: &Received<J>)
        requires
            old(self)@.state == WorkerState::Idle,
        ensures
            final(self)@ == old(self)@.on_received(*received),
    {
        match received {
            Received::Job(_) => {
                self.state = WorkerState::Busy;
            },
            Received::Empty => {},
            Received::Disconnected => {
                self.state = WorkerState::Stopped;
            },
        }
    }

    /// The job returned: the worker waits for the next one.
    pub fn finish(&mut self)
        requires
            old(self)@.state == WorkerState::Busy,
        ensures
            final(self)@ == old(self)@.finish(),
    {
        self.state = WorkerState::Idle;
    }

    /// The job failed abnormally and took the thread with it.
    pub fn crash(&mut self)
        requires
            old(self)@.state == WorkerState::Busy,
        ensures
            final(self)@ == old(self)@.crash(),
    {
        self.state = WorkerState::Panicked;
    }

    /// Tries to join the worker's thread. The handle of a thread that has
    /// ended is taken, once; the outcome says how the thread ended, or
    /// that it still runs, or that the handle was gone already.
    pub fn join(&mut self) -> (outcome: JoinOutcome)
        ensures
            final(self)@ == old(self)@.join(),
            outcome == old(self)@.join_outcome(),
    {
        if self.joined {
            JoinOutcome::NoThread
        } else {
            match self.state {
                WorkerState::Stopped => {
                    self.joined = true;
                    JoinOutcome::Finished
                },
                WorkerState::Panicked => {
                    self.joined = true;
                    JoinOutcome::Panicked
                },
                _ => JoinOutcome::Running,
            }
        }
    }
}

} // verus!
