use crate::channel::{Channel, ChannelView, Received};
use crate::error::PoolCreationError;
use crate::worker::{JobOutcome, JoinError, Worker, WorkerState, WorkerView};
use vstd::prelude::*;

verus! {

/// What one step of the teardown did, or what it waits for.
#[derive(Clone, Copy, PartialEq, Eq, Debug, Structural)]
pub enum ShutdownStep {
    /// The producer end of the channel was dropped: no job is accepted any
    /// more, and waiting workers will see the channel disconnected.
    Closed,
    /// This worker had left its loop and was joined.
    Joined(usize),
    /// This worker had been lost to a faulting job; its handle was taken
    /// all the same, and the teardown goes on.
    JoinFailed(JoinError),
    /// This worker is next to be joined but is still in its loop. Nothing
    /// changed: the caller lets the worker run and asks again.
    Wait(usize),
    /// The channel is closed and no thread is left to join.
    Done,
}

/// The index of the first worker at or after `from` whose thread handle is
/// still in its slot, or the number of workers if there is none.
pub open spec fn first_joinable(workers: Seq<WorkerView>, from: int) -> int
    decreases workers.len() - from,
{
    if from < 0 || from >= workers.len() {
        workers.len() as int
    } else if workers[from].joinable {
        from
    } else {
        first_joinable(workers, from + 1)
    }
}

/// How many of `workers` are live.
pub open spec fn count_live(workers: Seq<WorkerView>) -> nat
    decreases workers.len(),
{
    if workers.len() == 0 {
        0
    } else {
        count_live(workers.drop_last()) + if workers.last().live() {
            1nat
        } else {
            0nat
        }
    }
}

/// The pool as a mathematical value: its workers by number, and its channel.
pub struct PoolView<J> {
    pub workers: Seq<WorkerView>,
    pub channel: ChannelView<J>,
}

impl<J> PoolView<J> {
    /// The pool right after it was built with `size` workers.
    pub open spec fn built(size: nat) -> Self {
        PoolView {
            workers: Seq::new(size, |i: int| WorkerView::spawned(i as nat)),
            channel: ChannelView::fresh(),
        }
    }

    /// What holds of every pool: it has at least one worker, and no more
    /// than can be numbered; worker `i` has number `i`; a worker stops only
    /// once the channel is closed and drained; and a thread is joined only
    /// after its loop has ended.
    pub open spec fn wf(self) -> bool {
        &&& 1 <= self.workers.len() <= usize::MAX
        &&& forall|i: int| 0 <= i < self.workers.len() ==> (#[trigger] self.workers[i]).id == i
        &&& forall|i: int|
            0 <= i < self.workers.len() && (#[trigger] self.workers[i]).state
                == WorkerState::Stopped ==> !self.channel.open && self.channel.pending.len() == 0
        &&& forall|i: int|
            0 <= i < self.workers.len() && !(#[trigger] self.workers[i]).joinable
                ==> self.workers[i].terminated()
    }

    /// The pool after `job` was accepted.
    pub open spec fn execute(self, job: J) -> Self {
        PoolView { workers: self.workers, channel: self.channel.send(job) }
    }

    /// Worker `id` exists and waits for work.
    pub open spec fn can_receive(self, id: int) -> bool {
        0 <= id < self.workers.len() && self.workers[id].state == WorkerState::Idle
    }

    /// The pool after worker `id` tried to take a job.
    pub open spec fn receive(self, id: int) -> Self {
        PoolView {
            workers: self.workers.update(
                id,
                self.workers[id].on_received(self.channel.received()),
            ),
            channel: self.channel.recv(),
        }
    }

    /// Worker `id` exists and is executing a job.
    pub open spec fn can_finish(self, id: int) -> bool {
        0 <= id < self.workers.len() && self.workers[id].state == WorkerState::Running
    }

    /// The pool after the job of worker `id` ended with `outcome`.
    pub open spec fn finish(self, id: int, outcome: JobOutcome) -> Self {
        PoolView {
            workers: self.workers.update(id, self.workers[id].finish(outcome)),
            channel: self.channel,
        }
    }

    /// What the next teardown step is: first the channel is closed, then
    /// the workers are joined by rising number, each as soon as its loop
    /// has ended.
    pub open spec fn shutdown_result(self) -> ShutdownStep {
        let next = first_joinable(self.workers, 0);
        if self.channel.open {
            ShutdownStep::Closed
        } else if next >= self.workers.len() {
            ShutdownStep::Done
        } else if !self.workers[next].terminated() {
            ShutdownStep::Wait(next as usize)
        } else if self.workers[next].state == WorkerState::Faulted {
            ShutdownStep::JoinFailed(JoinError { id: next as usize })
        } else {
            ShutdownStep::Joined(next as usize)
        }
    }

    /// The pool after the next teardown step.
    pub open spec fn shutdown_step(self) -> Self {
        let next = first_joinable(self.workers, 0);
        if self.channel.open {
            PoolView { workers: self.workers, channel: self.channel.close() }
        } else if next < self.workers.len() && self.workers[next].terminated() {
            PoolView {
                workers: self.workers.update(next, self.workers[next].join()),
                channel: self.channel,
            }
        } else {
            self
        }
    }
}

/// Between `from` and the first joinable worker nobody is joinable.
pub proof fn lemma_first_joinable(workers: Seq<WorkerView>, from: int)
    requires
        0 <= from <= workers.len(),
    ensures
        from <= first_joinable(workers, from) <= workers.len(),
        first_joinable(workers, from) < workers.len() ==> workers[first_joinable(
            workers,
            from,
        )].joinable,
        forall|j: int| from <= j < first_joinable(workers, from) ==> !(#[trigger] workers[j]).joinable,
    decreases workers.len() - from,
{
    if from < workers.len() && !workers[from].joinable {
        lemma_first_joinable(workers, from + 1);
    }
}

/// Where every worker is live, the live workers are all of them.
pub proof fn lemma_count_live_all(workers: Seq<WorkerView>)
    requires
        forall|i: int| 0 <= i < workers.len() ==> (#[trigger] workers[i]).live(),
    ensures
        count_live(workers) == workers.len(),
    decreases workers.len(),
{
    if workers.len() > 0 {
        lemma_count_live_all(workers.drop_last());
    }
}

/// A pool of a fixed number of workers around one channel.
///
/// Jobs are accepted with [`ThreadPool::execute`] and wait in the channel.
/// Each worker moves through its loop by [`ThreadPool::receive`] and
/// [`ThreadPool::finish`]; [`ThreadPool::shutdown_step`] closes the channel
/// and then joins the workers one by one.
#[derive(Debug)]
pub struct ThreadPool<J> {
    workers: Vec<Worker>,
    channel: Channel<J>,
}

impl<J> View for ThreadPool<J> {
    type V = PoolView<J>;

    closed spec fn view(&self) -> PoolView<J> {
        PoolView {
            workers: Seq::new(self.workers@.len(), |i: int| self.workers@[i]@),
            channel: self.channel@,
        }
    }
}

impl<J> ThreadPool<J> {
    /// The pool is in a state that its own operations can reach.
    pub open spec fn wf(&self) -> bool {
        self@.wf()
    }

    /// Creates a pool of `size` workers, numbered from 0, all of them
    /// waiting for work on a fresh channel. A pool of no workers is refused.
    pub fn build(size: usize) -> (built: Result<ThreadPool<J>, PoolCreationError>)
        ensures
            size == 0 ==> built is Err,
            size > 0 ==> built is Ok && built->Ok_0@ == PoolView::<J>::built(size as nat)
                && built->Ok_0.wf() && count_live(built->Ok_0@.workers) == size,
    {
        if size > 0 {
            let channel = Channel::new();
            let mut workers: Vec<Worker> = Vec::new();
            let mut id: usize = 0;
            while id < size
                invariant
                    id <= size,
                    workers@.len() == id,
                    forall|i: int|
                        0 <= i < id ==> (#[trigger] workers@[i])@ == WorkerView::spawned(i as nat),
                decreases size - id,
            {
                workers.push(Worker::new(id));
                id = id + 1;
            }
            let pool = ThreadPool { workers, channel };
            proof {
                assert(pool@.workers =~= PoolView::<J>::built(size as nat).workers);
                lemma_count_live_all(pool@.workers);
            }
            Ok(pool)
        } else {
            Err(PoolCreationError)
        }
    }

    /// The number of workers.
    pub fn size(&self) -> (size: usize)
        ensures
            size == self@.workers.len(),
    {
        self.workers.len()
    }

    /// Whether the pool still accepts jobs.
    pub fn is_open(&self) -> (open: bool)
        ensures
            open == self@.channel.open,
    {
        self.channel.is_open()
    }

    /// How many accepted jobs wait for a worker.
    pub fn pending(&self) -> (pending: usize)
        ensures
            pending == self@.channel.pending.len(),
    {
        self.channel.len()
    }

    /// Where worker `id` stands in its loop, if there is such a worker.
    pub fn worker_state(&self, id: usize) -> (state: Option<WorkerState>)
        ensures
            id < self@.workers.len() ==> state == Some(self@.workers[id as int].state),
            id >= self@.workers.len() ==> state is None,
    {
        if id < self.workers.len() {
            Some(self.workers[id].state())
        } else {
            None
        }
    }

    /// Whether worker `id` exists and its thread has not been joined yet.
    pub fn is_joinable(&self, id: usize) -> (joinable: bool)
        ensures
            joinable == (id < self@.workers.len() && self@.workers[id as int].joinable),
    {
        id < self.workers.len() && self.workers[id].is_joinable()
    }

    /// How many workers have a thread that is still in its loop.
    pub fn live_workers(&self) -> (live: usize)
        ensures
            live == count_live(self@.workers),
    {
        let mut live: usize = 0;
        let mut i: usize = 0;
        while i < self.workers.len()
            invariant
                i <= self.workers@.len(),
                live <= i,
                live == count_live(self@.workers.take(i as int)),
            decreases self.workers@.len() - i,
        {
            proof {
                assert(self@.workers.take(i + 1).drop_last() =~= self@.workers.take(i as int));
            }
            if self.workers[i].is_live() {
                live = live + 1;
            }
            i = i + 1;
        }
        proof {
            assert(self@.workers.take(i as int) =~= self@.workers);
        }
        live
    }

    /// Accepts `job`: it waits in the channel behind the jobs accepted
    /// before it. The call returns at once, whatever the workers are doing.
    pub fn execute(&mut self, job: J) where J: Send + 'static
        requires
            old(self).wf(),
            old(self)@.channel.open,
        ensures
            final(self)@ == old(self)@.execute(job),
            final(self).wf(),
    {
        let _sent = self.channel.send(job);
    }

    /// One turn of the loop of worker `id`, which waits for work: it takes
    /// the oldest waiting job and starts running it, or stops for good
    /// where the channel is disconnected, or keeps waiting. No other worker
    /// is touched, and none has to be idle for this one to proceed.
    pub fn receive(&mut self, id: usize) -> (received: Received<J>)
        requires
            old(self).wf(),
            old(self)@.can_receive(id as int),
        ensures
            received == old(self)@.channel.received(),
            final(self)@ == old(self)@.receive(id as int),
            final(self).wf(),
    {
        let received = self.workers[id].receive(&mut self.channel);
        proof {
            assert(self@.workers =~= old(self)@.receive(id as int).workers);
        }
        received
    }

    /// Records how the job that worker `id` was running ended. After a
    /// fault the worker is lost; the others go on.
    pub fn finish(&mut self, id: usize, outcome: JobOutcome)
        requires
            old(self).wf(),
            old(self)@.can_finish(id as int),
        ensures
            final(self)@ == old(self)@.finish(id as int, outcome),
            final(self).wf(),
    {
        self.workers[id].finish(outcome);
        proof {
            assert(self@.workers =~= old(self)@.finish(id as int, outcome).workers);
        }
    }

    /// Takes the next step of the teardown and says which it was.
    ///
    /// The first step closes the channel. Every later step looks at the
    /// lowest-numbered worker that is not joined yet: if its loop has
    /// ended, it is joined; if not, the answer is [`ShutdownStep::Wait`]
    /// and nothing changes. Workers joined before are passed over, so the
    /// teardown can be resumed or repeated at any point.
    pub fn shutdown_step(&mut self) -> (step: ShutdownStep)
        requires
            old(self).wf(),
        ensures
            step == old(self)@.shutdown_result(),
            final(self)@ == old(self)@.shutdown_step(),
            final(self).wf(),
    {
        if self.channel.is_open() {
            self.channel.close();
            return ShutdownStep::Closed;
        }
        let mut next: usize = 0;
        while next < self.workers.len() && !self.workers[next].is_joinable()
            invariant
                next <= self.workers@.len(),
                first_joinable(self@.workers, 0) == first_joinable(self@.workers, next as int),
            decreases self.workers@.len() - next,
        {
            next = next + 1;
        }
        if next >= self.workers.len() {
            return ShutdownStep::Done;
        }
        let state = self.workers[next].state();
        if state == WorkerState::Idle || state == WorkerState::Running {
            return ShutdownStep::Wait(next);
        }
        let joined = self.workers[next].join();
        proof {
            assert(self@.workers =~= old(self)@.shutdown_step().workers);
        }
        match joined {
            Ok(()) => ShutdownStep::Joined(next),
            Err(error) => ShutdownStep::JoinFailed(error),
        }
    }
}

} // verus!
