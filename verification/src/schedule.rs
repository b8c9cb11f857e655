use crate::channel::Received;
use crate::pool::{first_joinable, lemma_first_joinable, PoolView, ShutdownStep};
use crate::worker::{JobOutcome, WorkerState, WorkerView};
use vstd::prelude::*;

verus! {

/// One transition of the pool, as a schedule lists it.
pub enum Step<J> {
    /// The pool accepts this job.
    Execute(J),
    /// This worker tries to take a job.
    Receive(int),
    /// The job of this worker ends in this way.
    Finish(int, JobOutcome),
    /// The teardown takes its next step.
    Shutdown,
}

/// What a worker still has before it: a running job has to end and the
/// worker has to leave its loop; a waiting worker has to leave its loop;
/// and a thread that was not joined has to be joined.
pub open spec fn worker_load(worker: WorkerView) -> nat {
    let loop_part: nat = match worker.state {
        WorkerState::Running => 2,
        WorkerState::Idle => 1,
        WorkerState::Stopped => 0,
        WorkerState::Faulted => 0,
    };
    let join_part: nat = if worker.joinable {
        1
    } else {
        0
    };
    loop_part + join_part
}

/// The loads of `workers`, added up.
pub open spec fn total_load(workers: Seq<WorkerView>) -> nat
    decreases workers.len(),
{
    if workers.len() == 0 {
        0
    } else {
        total_load(workers.drop_last()) + worker_load(workers.last())
    }
}

impl<J> PoolView<J> {
    /// The pool can take `step` in this state.
    pub open spec fn enabled(self, step: Step<J>) -> bool {
        match step {
            Step::Execute(_) => self.channel.open,
            Step::Receive(id) => self.can_receive(id),
            Step::Finish(id, _) => self.can_finish(id),
            Step::Shutdown => true,
        }
    }

    /// The pool after `step`.
    pub open spec fn apply(self, step: Step<J>) -> Self {
        match step {
            Step::Execute(job) => self.execute(job),
            Step::Receive(id) => self.receive(id),
            Step::Finish(id, outcome) => self.finish(id, outcome),
            Step::Shutdown => self.shutdown_step(),
        }
    }

    /// `step` would only report that its caller has to wait, or that
    /// nothing is left to do: a receive on an open, empty channel, or a
    /// teardown step that answers `Wait` or `Done`.
    pub open spec fn idles(self, step: Step<J>) -> bool {
        match step {
            Step::Execute(_) => false,
            Step::Receive(_) => self.channel.received() is Empty,
            Step::Finish(_, _) => false,
            Step::Shutdown => self.shutdown_result() is Wait || self.shutdown_result() is Done,
        }
    }

    /// The jobs that `step` hands to a worker: the oldest waiting job where
    /// a worker receives one, and none otherwise.
    pub open spec fn handed(self, step: Step<J>) -> Seq<J> {
        match step {
            Step::Receive(_) => if self.channel.pending.len() > 0 {
                seq![self.channel.pending[0]]
            } else {
                Seq::empty()
            },
            _ => Seq::empty(),
        }
    }

    /// Each of `steps` is enabled in the state in which its turn comes.
    pub open spec fn admits(self, steps: Seq<Step<J>>) -> bool
        decreases steps.len(),
    {
        steps.len() == 0 || (self.enabled(steps[0]) && self.apply(steps[0]).admits(
            steps.drop_first(),
        ))
    }

    /// The pool after all of `steps`, taken in order.
    pub open spec fn run(self, steps: Seq<Step<J>>) -> Self
        decreases steps.len(),
    {
        if steps.len() == 0 {
            self
        } else {
            self.apply(steps[0]).run(steps.drop_first())
        }
    }

    /// The jobs that `steps` hand to workers, in the order of the handing.
    pub open spec fn handed_by(self, steps: Seq<Step<J>>) -> Seq<J>
        decreases steps.len(),
    {
        if steps.len() == 0 {
            Seq::empty()
        } else {
            self.handed(steps[0]) + self.apply(steps[0]).handed_by(steps.drop_first())
        }
    }

    /// No step of `steps` accepts a job, and each of them changes the pool
    /// rather than report that it has to wait.
    pub open spec fn winds_down(self, steps: Seq<Step<J>>) -> bool
        decreases steps.len(),
    {
        steps.len() == 0 || (!(steps[0] is Execute) && !self.idles(steps[0]) && self.apply(
            steps[0],
        ).winds_down(steps.drop_first()))
    }

    /// An upper bound on the steps that the pool can still take once no
    /// further job is accepted: closing the channel, handing out and
    /// finishing what waits, and stopping and joining each worker.
    pub open spec fn remaining(self) -> nat {
        let close_part: nat = if self.channel.open {
            1
        } else {
            0
        };
        close_part + 2 * self.channel.pending.len() + total_load(self.workers)
    }
}

/// The jobs that `steps` accept, in the order of their acceptance.
pub open spec fn accepted_by<J>(steps: Seq<Step<J>>) -> Seq<J>
    decreases steps.len(),
{
    if steps.len() == 0 {
        Seq::empty()
    } else {
        let first = match steps[0] {
            Step::Execute(job) => seq![job],
            _ => Seq::empty(),
        };
        first + accepted_by(steps.drop_first())
    }
}

/// Replacing one worker changes the total load by the difference of the
/// two loads.
pub proof fn lemma_total_load_update(workers: Seq<WorkerView>, id: int, worker: WorkerView)
    requires
        0 <= id < workers.len(),
    ensures
        total_load(workers.update(id, worker)) + worker_load(workers[id]) == total_load(workers)
            + worker_load(worker),
    decreases workers.len(),
{
    let updated = workers.update(id, worker);
    if id == workers.len() - 1 {
        assert(updated.drop_last() =~= workers.drop_last());
    } else {
        assert(updated.drop_last() =~= workers.drop_last().update(id, worker));
        lemma_total_load_update(workers.drop_last(), id, worker);
    }
}

/// Every enabled step leads from a well-formed pool to a well-formed pool.
pub proof fn lemma_step_preserves_wf<J>(pool: PoolView<J>, step: Step<J>)
    requires
        pool.wf(),
        pool.enabled(step),
    ensures
        pool.apply(step).wf(),
{
    lemma_first_joinable(pool.workers, 0);
}

/// Every admitted schedule leads from a well-formed pool to a well-formed
/// pool.
pub proof fn lemma_run_preserves_wf<J>(pool: PoolView<J>, steps: Seq<Step<J>>)
    requires
        pool.wf(),
        pool.admits(steps),
    ensures
        pool.run(steps).wf(),
    decreases steps.len(),
{
    if steps.len() > 0 {
        lemma_step_preserves_wf(pool, steps[0]);
        lemma_run_preserves_wf(pool.apply(steps[0]), steps.drop_first());
    }
}

/// Under any schedule, each accepted job is handed to a worker exactly
/// once or still waits, and jobs are handed out in the order in which they
/// were accepted: what waited at the start, followed by what the schedule
/// accepted, is what the schedule handed out, followed by what waits at
/// the end.
pub proof fn lemma_jobs_handed_once_in_order<J>(pool: PoolView<J>, steps: Seq<Step<J>>)
    requires
        pool.admits(steps),
    ensures
        pool.channel.pending + accepted_by(steps) == pool.handed_by(steps) + pool.run(
            steps,
        ).channel.pending,
    decreases steps.len(),
{
    if steps.len() > 0 {
        let next = pool.apply(steps[0]);
        lemma_jobs_handed_once_in_order(next, steps.drop_first());
        let first = match steps[0] {
            Step::Execute(job) => seq![job],
            _ => Seq::empty(),
        };
        // One step: what waited, then what the step accepted, is what the
        // step handed out, then what waits after it.
        assert(pool.channel.pending + first =~= pool.handed(steps[0]) + next.channel.pending);
        assert(pool.channel.pending + accepted_by(steps) =~= (pool.channel.pending + first)
            + accepted_by(steps.drop_first()));
        assert(pool.handed_by(steps) + pool.run(steps).channel.pending =~= pool.handed(steps[0])
            + (next.handed_by(steps.drop_first()) + next.run(steps.drop_first()).channel.pending));
    }
}

/// A job that waits is never held back by what other workers do. Any
/// worker that waits for work can take its turn, whatever the states of
/// the others, and is then handed the oldest waiting job; the other
/// workers are left as they were, a running one still running.
pub proof fn lemma_idle_worker_takes_oldest_job<J>(pool: PoolView<J>, id: int, other: int)
    requires
        pool.wf(),
        pool.can_receive(id),
        pool.channel.pending.len() > 0,
        0 <= other < pool.workers.len(),
        other != id,
    ensures
        pool.enabled(Step::Receive(id)),
        !pool.idles(Step::Receive(id)),
        pool.channel.received() == Received::Job(pool.channel.pending[0]),
        pool.handed(Step::Receive(id)) == seq![pool.channel.pending[0]],
        pool.receive(id).workers[id].state == WorkerState::Running,
        pool.receive(id).workers[other] == pool.workers[other],
        pool.receive(id).channel.pending == pool.channel.pending.drop_first(),
{
}

/// A step that neither accepts a job nor merely waits brings the pool
/// strictly closer to rest.
pub proof fn lemma_step_makes_progress<J>(pool: PoolView<J>, step: Step<J>)
    requires
        pool.wf(),
        pool.enabled(step),
        !(step is Execute),
        !pool.idles(step),
    ensures
        pool.apply(step).remaining() < pool.remaining(),
{
    match step {
        Step::Execute(_) => {},
        Step::Receive(id) => {
            lemma_total_load_update(
                pool.workers,
                id,
                pool.workers[id].on_received(pool.channel.received()),
            );
        },
        Step::Finish(id, outcome) => {
            lemma_total_load_update(pool.workers, id, pool.workers[id].finish(outcome));
        },
        Step::Shutdown => {
            lemma_first_joinable(pool.workers, 0);
            if !pool.channel.open {
                let next = first_joinable(pool.workers, 0);
                lemma_total_load_update(pool.workers, next, pool.workers[next].join());
            }
        },
    }
}

/// Once no further job is accepted the pool comes to rest, whatever the
/// order in which its workers and its teardown take their turns, and
/// however many jobs wait: a schedule of steps that all change the pool is
/// no longer than the bound that the pool had at its start.
pub proof fn lemma_winding_down_ends<J>(pool: PoolView<J>, steps: Seq<Step<J>>)
    requires
        pool.wf(),
        pool.admits(steps),
        pool.winds_down(steps),
    ensures
        steps.len() + pool.run(steps).remaining() <= pool.remaining(),
    decreases steps.len(),
{
    if steps.len() > 0 {
        lemma_step_makes_progress(pool, steps[0]);
        lemma_step_preserves_wf(pool, steps[0]);
        lemma_winding_down_ends(pool.apply(steps[0]), steps.drop_first());
    }
}

/// The teardown cannot get stuck. Once the channel is closed, a worker for
/// which the teardown waits can always take a turn that changes the pool:
/// if it waits for work, its receive attempt yields a job or the
/// disconnection, never a reason to wait; if it runs a job, that job can
/// end. And where the teardown is done, every thread has been joined after
/// its loop had ended.
pub proof fn lemma_teardown_never_stuck<J>(pool: PoolView<J>)
    requires
        pool.wf(),
        !pool.channel.open,
    ensures
        !(pool.shutdown_result() is Closed),
        pool.shutdown_result() matches ShutdownStep::Wait(id) ==> {
            ||| pool.enabled(Step::Receive(id as int)) && !pool.idles(Step::Receive(id as int))
            ||| pool.enabled(Step::Finish(id as int, JobOutcome::Completed))
        },
        pool.shutdown_result() is Done ==> forall|i: int|
            0 <= i < pool.workers.len() ==> !(#[trigger] pool.workers[i]).joinable
                && pool.workers[i].terminated(),
{
    lemma_first_joinable(pool.workers, 0);
}

/// Accepted work does not stall while a worker is left. Where a job waits,
/// every worker that has not ended its loop can take a turn that changes
/// the pool: it takes a job if it waits for one, and otherwise the job
/// that it runs can end.
pub proof fn lemma_waiting_job_finds_a_taker<J>(pool: PoolView<J>, id: int)
    requires
        pool.wf(),
        pool.channel.pending.len() > 0,
        0 <= id < pool.workers.len(),
        !pool.workers[id].terminated(),
    ensures
        pool.workers[id].live(),
        pool.workers[id].state == WorkerState::Idle ==> pool.enabled(Step::Receive(id))
            && !pool.idles(Step::Receive(id)),
        pool.workers[id].state == WorkerState::Running ==> pool.enabled(
            Step::Finish(id, JobOutcome::Completed),
        ),
{
}

/// The step that brings a pool under teardown forward when every job that
/// runs comes to its end: the teardown's own step, or a turn of the worker
/// for which the teardown waits.
pub open spec fn teardown_move<J>(pool: PoolView<J>) -> Step<J> {
    match pool.shutdown_result() {
        ShutdownStep::Wait(id) => if pool.workers[id as int].state == WorkerState::Idle {
            Step::Receive(id as int)
        } else {
            Step::Finish(id as int, JobOutcome::Completed)
        },
        _ => Step::Shutdown,
    }
}

/// Teardown completes from every state of the pool, whether jobs wait or
/// run or none was ever accepted. If every running job comes to its end,
/// there is a schedule that accepts nothing more, in which every step
/// changes the pool, and after which the teardown is done: the channel is
/// closed, every thread is joined, every worker that was not lost has left
/// its loop in the regular way, and, if there was such a worker, no job
/// waits any more.
pub proof fn lemma_teardown_completes<J>(pool: PoolView<J>) -> (steps: Seq<Step<J>>)
    requires
        pool.wf(),
    ensures
        pool.admits(steps),
        pool.winds_down(steps),
        pool.run(steps).wf(),
        pool.run(steps).shutdown_result() is Done,
        !pool.run(steps).channel.open,
        pool.run(steps).workers.len() == pool.workers.len(),
        forall|i: int|
            0 <= i < pool.workers.len() ==> {
                let worker = #[trigger] pool.run(steps).workers[i];
                &&& !worker.joinable
                &&& worker.state == if pool.workers[i].state == WorkerState::Faulted {
                    WorkerState::Faulted
                } else {
                    WorkerState::Stopped
                }
            },
        (exists|i: int|
            0 <= i < pool.workers.len() && (#[trigger] pool.workers[i]).state
                != WorkerState::Faulted) ==> pool.run(steps).channel.pending.len() == 0,
    decreases pool.remaining(),
{
    lemma_first_joinable(pool.workers, 0);
    if pool.shutdown_result() is Done {
        let steps = Seq::<Step<J>>::empty();
        assert forall|i: int| 0 <= i < pool.workers.len() implies !(#[trigger] pool.run(
            steps,
        ).workers[i]).joinable && pool.workers[i].terminated() by {
            assert(!pool.workers[i].joinable);
        }
        steps
    } else {
        let step = teardown_move(pool);
        let next = pool.apply(step);
        lemma_step_preserves_wf(pool, step);
        lemma_step_makes_progress(pool, step);
        let rest = lemma_teardown_completes(next);
        let steps = seq![step] + rest;
        assert(steps[0] == step);
        assert(steps.drop_first() =~= rest);
        assert forall|i: int| 0 <= i < pool.workers.len() implies (next.workers[i].state
            == WorkerState::Faulted) == (pool.workers[i].state == WorkerState::Faulted) by {}
        assert forall|i: int| 0 <= i < pool.workers.len() implies {
            let worker = #[trigger] pool.run(steps).workers[i];
            &&& !worker.joinable
            &&& worker.state == if pool.workers[i].state == WorkerState::Faulted {
                WorkerState::Faulted
            } else {
                WorkerState::Stopped
            }
        } by {
            assert(pool.run(steps).workers[i] == next.run(rest).workers[i]);
        }
        if exists|i: int|
            0 <= i < pool.workers.len() && (#[trigger] pool.workers[i]).state
                != WorkerState::Faulted {
            let i = choose|i: int|
                0 <= i < pool.workers.len() && (#[trigger] pool.workers[i]).state
                    != WorkerState::Faulted;
            assert(next.workers[i].state != WorkerState::Faulted);
        }
        steps
    }
}

/// Closing the channel loses no job. The first step of the teardown closes
/// the channel and nothing else: what waits keeps waiting, in its order,
/// and every worker is left as it was.
pub proof fn lemma_closing_keeps_waiting_jobs<J>(pool: PoolView<J>)
    requires
        pool.wf(),
        pool.channel.open,
    ensures
        pool.shutdown_result() is Closed,
        !pool.shutdown_step().channel.open,
        pool.shutdown_step().channel.pending == pool.channel.pending,
        pool.shutdown_step().workers == pool.workers,
{
}

/// A worker leaves its loop only when the channel is closed and nothing
/// waits: so where any worker has stopped, every job that was ever
/// accepted has been handed to a worker.
pub proof fn lemma_stopped_worker_saw_channel_drained<J>(pool: PoolView<J>, id: int)
    requires
        pool.wf(),
        0 <= id < pool.workers.len(),
        pool.workers[id].state == WorkerState::Stopped,
    ensures
        !pool.channel.open,
        pool.channel.pending.len() == 0,
{
}

} // verus!
