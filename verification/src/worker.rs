use crate::channel::{Channel, Received};
use vstd::prelude::*;

verus! {

/// Where a worker stands in its loop.
#[derive(Clone, Copy, PartialEq, Eq, Debug, Structural)]
pub enum WorkerState {
    /// Waiting for the next job.
    Idle,
    /// Executing a job it took from the channel.
    Running,
    /// Left its loop after the channel reported disconnection.
    Stopped,
    /// Lost to a fault raised by the job it was executing.
    Faulted,
}

/// How the execution of one job ended.
#[derive(Clone, Copy, PartialEq, Eq, Debug, Structural)]
pub enum JobOutcome {
    /// The job ran to its end.
    Completed,
    /// The job raised a fault, which takes its worker down with it.
    Faulted,
}

/// Reported when a joined worker had not left its loop in the regular way.
#[derive(Clone, Copy, PartialEq, Eq, Debug, Structural)]
pub struct JoinError {
    /// The worker that was lost.
    pub id: usize,
}

/// Stands for the thread of one worker until that thread is joined.
#[derive(Debug)]
pub struct ThreadHandle {
    id: usize,
}

/// A worker as a mathematical value.
pub struct WorkerView {
    pub id: nat,
    pub state: WorkerState,
    /// Whether the worker's thread handle is still in its slot.
    pub joinable: bool,
}

impl WorkerView {
    /// A worker right after it was spawned: waiting, with its handle in place.
    pub open spec fn spawned(id: nat) -> Self {
        WorkerView { id, state: WorkerState::Idle, joinable: true }
    }

    /// The worker's loop has ended, in one way or the other.
    pub open spec fn terminated(self) -> bool {
        self.state == WorkerState::Stopped || self.state == WorkerState::Faulted
    }

    /// The worker's thread exists and is still in its loop.
    pub open spec fn live(self) -> bool {
        self.joinable && !self.terminated()
    }

    /// The worker after its receive attempt yielded `received`: a job sets
    /// it running, disconnection stops it for good, and an empty channel
    /// leaves it waiting.
    pub open spec fn on_received<J>(self, received: Received<J>) -> Self {
        match received {
            Received::Job(_) => WorkerView { state: WorkerState::Running, ..self },
            Received::Empty => self,
            Received::Disconnected => WorkerView { state: WorkerState::Stopped, ..self },
        }
    }

    /// The worker after the job it was running ended with `outcome`.
    pub open spec fn finish(self, outcome: JobOutcome) -> Self {
        match outcome {
            JobOutcome::Completed => WorkerView { state: WorkerState::Idle, ..self },
            JobOutcome::Faulted => WorkerView { state: WorkerState::Faulted, ..self },
        }
    }

    /// The worker after its thread was joined: the handle is gone.
    pub open spec fn join(self) -> Self {
        WorkerView { joinable: false, ..self }
    }

    /// What joining this worker reports.
    pub open spec fn join_result(self) -> Result<(), JoinError> {
        if self.joinable && self.state == WorkerState::Faulted {
            Err(JoinError { id: self.id as usize })
        } else {
            Ok(())
        }
    }
}

/// One worker of the pool: its number, the state of its loop, and the slot
/// that holds its thread handle until the thread is joined.
#[derive(Debug)]
pub struct Worker {
    id: usize,
    state: WorkerState,
    thread: Option<ThreadHandle>,
}

impl View for Worker {
    type V = WorkerView;

    closed spec fn view(&self) -> WorkerView {
        WorkerView { id: self.id as nat, state: self.state, joinable: self.thread.is_some() }
    }
}

impl Worker {
    /// Spawns worker `id`: it waits for work at once.
    pub fn new(id: usize) -> (worker: Self)
        ensures
            worker@ == WorkerView::spawned(id as nat),
    {
        Worker { id, state: WorkerState::Idle, thread: Some(ThreadHandle { id }) }
    }

    /// The worker's number.
    pub fn id(&self) -> (id: usize)
        ensures
            id == self@.id,
    {
        self.id
    }

    /// Where the worker stands in its loop.
    pub fn state(&self) -> (state: WorkerState)
        ensures
            state == self@.state,
    {
        self.state
    }

    /// Whether the worker's thread has not been joined yet.
    pub fn is_joinable(&self) -> (joinable: bool)
        ensures
            joinable == self@.joinable,
    {
        self.thread.is_some()
    }

    /// Whether the worker's thread exists and is still in its loop.
    pub fn is_live(&self) -> (live: bool)
        ensures
            live == self@.live(),
    {
        self.thread.is_some() && (self.state == WorkerState::Idle || self.state
            == WorkerState::Running)
    }

    /// One turn of the worker's loop: a waiting worker tries to take the
    /// next job from `channel`. The job, if there is one, is handed to the
    /// caller, who executes it outside of any lock and reports with
    /// [`Worker::finish`].
    pub fn receive<J>(&mut self, channel: &mut Channel<J>) -> (received: Received<J>)
        requires
            old(self)@.state == WorkerState::Idle,
        ensures
            received == old(channel)@.received(),
            final(channel)@ == old(channel)@.recv(),
            final(self)@ == old(self)@.on_received(received),
    {
        let received = channel.recv();
        match &received {
            Received::Job(_) => {
                self.state = WorkerState::Running;
            },
            Received::Empty => {},
            Received::Disconnected => {
                self.state = WorkerState::Stopped;
            },
        }
        received
    }

    /// Records how the job that this worker was running ended.
    pub fn finish(&mut self, outcome: JobOutcome)
        requires
            old(self)@.state == WorkerState::Running,
        ensures
            final(self)@ == old(self)@.finish(outcome),
    {
        match outcome {
            JobOutcome::Completed => {
                self.state = WorkerState::Idle;
            },
            JobOutcome::Faulted => {
                self.state = WorkerState::Faulted;
            },
        }
    }

    /// Joins the worker's thread, whose loop has ended, and empties the
    /// slot. A worker that was joined before is skipped.
    pub fn join(&mut self) -> (joined: Result<(), JoinError>)
        requires
            old(self)@.terminated(),
        ensures
            final(self)@ == old(self)@.join(),
            joined == old(self)@.join_result(),
    {
        match self.thread.take() {
            Some(_) => {
                if self.state == WorkerState::Faulted {
                    Err(JoinError { id: self.id })
                } else {
                    Ok(())
                }
            },
            None => Ok(()),
        }
    }
}

} // verus!
