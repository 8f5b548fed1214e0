//! The job channel: an unbounded first-in-first-out queue of pending jobs
//! with a sending side that can be closed.
//!
//! The channel is a plain sequential value. Whoever shares it between
//! threads guards it with a lock, so that every operation below runs with
//! exclusive access: a job that `recv` hands out has left the queue before
//! any other caller can look at it.

use std::collections::VecDeque;
use vstd::prelude::*;

verus! {

/// What one attempt to take a job from the channel gave.
#[derive(Debug, PartialEq, Eq)]
pub enum Received<J> {
    /// The oldest pending job, which has left the queue.
    Job(J),
    /// Nothing is pending, but the sending side is still there: a blocking
    /// receiver waits and tries again.
    Empty,
    /// Nothing is pending and the sending side is gone: no job will ever
    /// arrive.
    Disconnected,
}

/// The channel as a mathematical value.
pub struct ChannelView<J> {
    /// The pending jobs, oldest first.
    pub queue: Seq<J>,
    /// Whether the sending side still exists.
    pub open: bool,
    /// Every job that was ever accepted, in the order of acceptance.
    pub accepted: Seq<J>,
    /// Every job that was ever handed to a receiver, in the order of the
    /// hand-out.
    pub delivered: Seq<J>,
}

impl<J> ChannelView<J> {
    /// Jobs leave in the order in which they came: what was handed out,
    /// followed by what is still pending, is what was accepted.
    pub open spec fn inv(self) -> bool {
        self.accepted == self.delivered + self.queue
    }

    /// A fresh channel: open, with nothing pending and no history.
    pub open spec fn fresh() -> Self {
        ChannelView { queue: Seq::empty(), open: true, accepted: Seq::empty(), delivered: Seq::empty() }
    }

    /// Sending appends the job while the channel is open and changes
    /// nothing once it is closed.
    pub open spec fn send(self, job: J) -> Self {
        if self.open {
            ChannelView { queue: self.queue.push(job), accepted: self.accepted.push(job), ..self }
        } else {
            self
        }
    }

    /// Closing removes the sending side and leaves the pending jobs alone.
    pub open spec fn close(self) -> Self {
        ChannelView { open: false, ..self }
    }

    /// The channel after one attempt to receive.
    pub open spec fn after_recv(self) -> Self {
        if self.queue.len() > 0 {
            ChannelView {
                queue: self.queue.drop_first(),
                delivered: self.delivered.push(self.queue[0]),
                ..self
            }
        } else {
            self
        }
    }

    /// What one attempt to receive gives.
    pub open spec fn recv_result(self) -> Received<J> {
        if self.queue.len() > 0 {
            Received::Job(self.queue[0])
        } else if self.open {
            Received::Empty
        } else {
            Received::Disconnected
        }
    }

    /// The next job to leave is the accepted job whose position is the
    /// number of jobs handed out so far.
    pub proof fn lemma_head_is_next_accepted(self)
        requires
            self.inv(),
            self.queue.len() > 0,
        ensures
            self.delivered.len() < self.accepted.len(),
            self.queue[0] == self.accepted[self.delivered.len() as int],
    {
    }

    /// Sending keeps the order invariant.
    pub proof fn lemma_send_inv(self, job: J)
        requires
            self.inv(),
        ensures
            self.send(job).inv(),
    {
        if self.open {
            assert(self.accepted.push(job) =~= self.delivered + self.queue.push(job));
        }
    }

    /// Receiving keeps the order invariant.
    pub proof fn lemma_recv_inv(self)
        requires
            self.inv(),
        ensures
            self.after_recv().inv(),
    {
        if self.queue.len() > 0 {
            assert(self.accepted =~= self.delivered.push(self.queue[0]) + self.queue.drop_first());
        }
    }
}

/// The job channel between the submitters and the workers of one pool.
pub struct JobChannel<J> {
    queue: VecDeque<J>,
    open: bool,
    accepted: Ghost<Seq<J>>,
    delivered: Ghost<Seq<J>>,
}

impl<J> View for JobChannel<J> {
    type V = ChannelView<J>;

    closed spec fn view(&self) -> ChannelView<J> {
        ChannelView {
            queue: self.queue@,
            open: self.open,
            accepted: self.accepted@,
            delivered: self.delivered@,
        }
    }
}

impl<J> JobChannel<J> {
    /// Creates an open channel with nothing pending.
    pub fn new() -> (channel: Self)
        ensures
            channel@ == ChannelView::<J>::fresh(),
            channel@.inv(),
    {
        let channel = JobChannel {
            queue: VecDeque::new(),
            open: true,
            accepted: Ghost(Seq::empty()),
            delivered: Ghost(Seq::empty()),
        };
        assert(channel@.accepted =~= channel@.delivered + channel@.queue);
        channel
    }

    /// Whether the sending side still exists.
    pub fn is_open(&self) -> (open: bool)
        ensures
            open == self@.open,
    {
        self.open
    }

    /// The number of pending jobs.
    pub fn len(&self) -> (len: usize)
        ensures
            len == self@.queue.len(),
    {
        self.queue.len()
    }

    /// Appends `job` to the queue if the channel is open. A closed channel
    /// hands the job back and stays as it was.
    pub fn send(&mut self, job: J) -> (refused: Result<(), J>)
        requires
            old(self)@.inv(),
        ensures
            final(self)@ == old(self)@.send(job),
            final(self)@.inv(),
            refused == if old(self)@.open { Ok::<(), J>(()) } else { Err::<(), J>(job) },
    {
        if self.open {
            proof {
                self@.lemma_send_inv(job);
            }
            self.accepted = Ghost(self.accepted@.push(job));
            self.queue.push_back(job);
            Ok(())
        } else {
            Err(job)
        }
    }

    /// Removes the sending side. Pending jobs stay; closing a closed
    /// channel changes nothing.
    pub fn close(&mut self)
        ensures
            final(self)@ == old(self)@.close(),
            old(self)@.inv() ==> final(self)@.inv(),
    {
        self.open = false;
    }

    /// Takes the oldest pending job, if there is one. With nothing pending
    /// the answer tells whether a job can still arrive.
    pub fn recv(&mut self) -> (received: Received<J>)
        requires
            old(self)@.inv(),
        ensures
            final(self)@ == old(self)@.after_recv(),
            final(self)@.inv(),
            received == old(self)@.recv_result(),
    {
        proof {
            self@.lemma_recv_inv();
        }
        match self.queue.pop_front() {
            Some(job) => {
                self.delivered = Ghost(self.delivered@.push(job));
                assert(self.queue@ =~= old(self).queue@.drop_first());
                Received::Job(job)
            },
            None => {
                if self.open {
                    Received::Empty
                } else {
                    Received::Disconnected
                }
            },
        }
    }
}

} // verus!
