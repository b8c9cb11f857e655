use std::collections::VecDeque;
use vstd::prelude::*;

verus! {

/// What one attempt to take a job from the channel yields.
#[derive(Debug, PartialEq, Eq)]
pub enum Received<J> {
    /// The oldest job that was waiting; it now belongs to the receiver.
    Job(J),
    /// Nothing is waiting, but the producer may still send: a consumer
    /// would block here.
    Empty,
    /// Nothing is waiting and the producer is gone: no job will ever come.
    Disconnected,
}

/// The channel as a mathematical value: the jobs that wait, oldest first,
/// and whether the producer end still exists.
pub struct ChannelView<J> {
    pub pending: Seq<J>,
    pub open: bool,
}

impl<J> ChannelView<J> {
    /// A fresh channel: open, with nothing waiting.
    pub open spec fn fresh() -> Self {
        ChannelView { pending: Seq::empty(), open: true }
    }

    /// The channel after `job` was accepted: it waits behind all others.
    pub open spec fn send(self, job: J) -> Self {
        ChannelView { pending: self.pending.push(job), open: self.open }
    }

    /// What the next receive attempt yields.
    pub open spec fn received(self) -> Received<J> {
        if self.pending.len() > 0 {
            Received::Job(self.pending[0])
        } else if self.open {
            Received::Empty
        } else {
            Received::Disconnected
        }
    }

    /// The channel after one receive attempt: the oldest job, if any, is gone.
    pub open spec fn recv(self) -> Self {
        if self.pending.len() > 0 {
            ChannelView { pending: self.pending.drop_first(), open: self.open }
        } else {
            self
        }
    }

    /// The channel after the producer end was dropped. Jobs that wait stay.
    pub open spec fn close(self) -> Self {
        ChannelView { pending: self.pending, open: false }
    }
}

/// The hand-off queue between the pool and its workers.
///
/// Jobs leave in the order in which they were accepted. Closing is the one
/// irreversible step: afterwards nothing is accepted, what waits can still
/// be received, and once nothing waits every receive reports
/// [`Received::Disconnected`].
#[derive(Debug)]
pub struct Channel<J> {
    queue: VecDeque<J>,
    open: bool,
}

impl<J> View for Channel<J> {
    type V = ChannelView<J>;

    closed spec fn view(&self) -> ChannelView<J> {
        ChannelView { pending: self.queue@, open: self.open }
    }
}

impl<J> Channel<J> {
    /// Creates an open channel with nothing waiting.
    pub fn new() -> (channel: Self)
        ensures
            channel@ == ChannelView::<J>::fresh(),
    {
        Channel { queue: VecDeque::new(), open: true }
    }

    /// Whether the producer end still exists.
    pub fn is_open(&self) -> (open: bool)
        ensures
            open == self@.open,
    {
        self.open
    }

    /// How many jobs wait.
    pub fn len(&self) -> (len: usize)
        ensures
            len == self@.pending.len(),
    {
        self.queue.len()
    }

    /// Hands `job` to the channel. A closed channel accepts nothing and
    /// gives the job back.
    pub fn send(&mut self, job: J) -> (sent: Result<(), J>)
        ensures
            old(self)@.open ==> sent == Ok::<(), J>(()) && final(self)@ == old(self)@.send(job),
            !old(self)@.open ==> sent == Err::<(), J>(job) && final(self)@ == old(self)@,
    {
        if self.open {
            self.queue.push_back(job);
            Ok(())
        } else {
            Err(job)
        }
    }

    /// One attempt to take the oldest waiting job. Never blocks: where a
    /// consumer would have to wait, the answer is [`Received::Empty`].
    pub fn recv(&mut self) -> (received: Received<J>)
        ensures
            received == old(self)@.received(),
            final(self)@ == old(self)@.recv(),
    {
        match self.queue.pop_front() {
            Some(job) => Received::Job(job),
            None => {
                if self.open {
                    Received::Empty
                } else {
                    Received::Disconnected
                }
            },
        }
    }

    /// Drops the producer end. Closing a closed channel changes nothing.
    pub fn close(&mut self)
        ensures
            final(self)@ == old(self)@.close(),
    {
        self.open = false;
    }
}

} // verus!
