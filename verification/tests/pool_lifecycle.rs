use my_server_book::JobOutcome;
use my_server_book::JoinError;
use my_server_book::PoolCreationError;
use my_server_book::Received;
use my_server_book::ShutdownStep;
use my_server_book::ThreadPool;
use my_server_book::WorkerState;

type Job = fn();

fn create_pool(num: usize) -> Result<ThreadPool<Job>, PoolCreationError> {
    ThreadPool::build(num)
}

fn numbered_pool(num: usize) -> ThreadPool<u32> {
    match ThreadPool::build(num) {
        Ok(pool) => pool,
        Err(error) => panic!("{}", error.throw()),
    }
}

/// Lets the workers take turns, lowest number first, until no worker can
/// change the pool any more. Returns the jobs in the order in which they
/// were handed out, each with the worker that ran it.
fn run_to_rest(pool: &mut ThreadPool<u32>) -> Vec<(usize, u32)> {
    let mut ran = Vec::new();
    let mut moved = true;
    while moved {
        moved = false;
        for id in 0..pool.size() {
            match pool.worker_state(id) {
                Some(WorkerState::Idle) => match pool.receive(id) {
                    Received::Job(job) => {
                        ran.push((id, job));
                        moved = true;
                    }
                    Received::Disconnected => moved = true,
                    Received::Empty => {}
                },
                Some(WorkerState::Running) => {
                    pool.finish(id, JobOutcome::Completed);
                    moved = true;
                }
                _ => {}
            }
        }
    }
    ran
}

/// Runs the teardown to its end, giving each worker for which it waits a
/// turn. Returns every step that changed the pool.
fn tear_down(pool: &mut ThreadPool<u32>) -> Vec<ShutdownStep> {
    let mut steps = Vec::new();
    loop {
        match pool.shutdown_step() {
            ShutdownStep::Done => return steps,
            ShutdownStep::Wait(id) => match pool.worker_state(id) {
                Some(WorkerState::Idle) => {
                    pool.receive(id);
                }
                Some(WorkerState::Running) => pool.finish(id, JobOutcome::Completed),
                _ => unreachable!(),
            },
            step => steps.push(step),
        }
    }
}

#[test]
fn success_pool_create() {
    let pool = create_pool(4).unwrap();
    assert_eq!(pool.size(), 4);

    for id in 0..pool.size() {
        assert_eq!(pool.is_joinable(id), true);
        assert_eq!(pool.worker_state(id), Some(WorkerState::Idle));
    }
    assert_eq!(pool.live_workers(), 4);
}

#[test]
fn fail_pool_create() {
    let err = create_pool(0).unwrap_err().throw();
    assert_eq!(err, "Thread pool not created");
}

#[test]
fn success_executes_job() {
    let mut pool = create_pool(4).unwrap();
    let job = || println!("hello world\n");
    pool.execute(job);

    assert_eq!(pool.pending(), 1);
    match pool.receive(0) {
        Received::Job(job) => job(),
        _ => panic!("the job was not handed out"),
    }
    pool.finish(0, JobOutcome::Completed);
    assert_eq!(pool.pending(), 0);
    assert_eq!(pool.worker_state(0), Some(WorkerState::Idle));
}

#[test]
#[should_panic]
fn fail_panics_at_job() {
    let mut pool = create_pool(4).unwrap();
    let job = || panic!("Panic expected");
    pool.execute(job);

    if let Received::Job(job) = pool.receive(0) {
        job();
    }
}

#[test]
fn build_yields_as_many_live_workers_as_asked() {
    for size in [1usize, 2, 7, 64] {
        let pool = numbered_pool(size);
        assert_eq!(pool.size(), size);
        assert_eq!(pool.live_workers(), size);
        assert!(pool.is_open());
        assert_eq!(pool.pending(), 0);
        for id in 0..size {
            assert_eq!(pool.worker_state(id), Some(WorkerState::Idle));
            assert!(pool.is_joinable(id));
        }
        assert_eq!(pool.worker_state(size), None);
        assert!(!pool.is_joinable(size));
    }
}

#[test]
fn build_of_no_workers_is_refused() {
    let built: Result<ThreadPool<u32>, PoolCreationError> = ThreadPool::build(0);
    assert!(built.is_err());
}

#[test]
fn a_job_is_handed_to_one_worker_once() {
    let mut pool = numbered_pool(3);
    pool.execute(41);
    assert_eq!(pool.pending(), 1);

    assert_eq!(pool.receive(2), Received::Job(41));
    assert_eq!(pool.worker_state(2), Some(WorkerState::Running));
    assert_eq!(pool.pending(), 0);

    assert_eq!(pool.receive(0), Received::Empty);
    assert_eq!(pool.receive(1), Received::Empty);
    assert_eq!(pool.worker_state(0), Some(WorkerState::Idle));
    assert_eq!(pool.worker_state(1), Some(WorkerState::Idle));

    pool.finish(2, JobOutcome::Completed);
    assert_eq!(pool.worker_state(2), Some(WorkerState::Idle));
    assert_eq!(pool.receive(2), Received::Empty);
}

#[test]
fn jobs_leave_in_the_order_of_their_acceptance() {
    let mut pool = numbered_pool(1);
    for job in [5u32, 3, 9, 3] {
        pool.execute(job);
    }
    let ran: Vec<u32> = run_to_rest(&mut pool).into_iter().map(|(_, job)| job).collect();
    assert_eq!(ran, vec![5, 3, 9, 3]);
}

#[test]
fn more_jobs_than_workers_all_complete() {
    let mut pool = numbered_pool(3);
    for job in 0..10u32 {
        pool.execute(job);
    }
    assert_eq!(pool.pending(), 10);

    let ran = run_to_rest(&mut pool);
    let jobs: Vec<u32> = ran.iter().map(|(_, job)| *job).collect();
    assert_eq!(jobs, (0..10u32).collect::<Vec<u32>>());
    assert_eq!(ran[0], (0, 0));
    assert_eq!(ran[1], (1, 1));
    assert_eq!(ran[2], (2, 2));
    assert_eq!(pool.pending(), 0);
    assert_eq!(pool.live_workers(), 3);
    for id in 0..3 {
        assert_eq!(pool.worker_state(id), Some(WorkerState::Idle));
    }
}

#[test]
fn no_jobs_at_all_is_a_no_op() {
    let mut pool = numbered_pool(2);
    assert_eq!(run_to_rest(&mut pool), vec![]);
    assert_eq!(pool.live_workers(), 2);
    assert!(pool.is_open());
}

#[test]
fn a_busy_worker_does_not_hold_back_the_others() {
    let mut pool = numbered_pool(2);
    pool.execute(1);
    pool.execute(2);

    assert_eq!(pool.receive(0), Received::Job(1));
    assert_eq!(pool.worker_state(0), Some(WorkerState::Running));

    assert_eq!(pool.receive(1), Received::Job(2));
    assert_eq!(pool.worker_state(0), Some(WorkerState::Running));
    assert_eq!(pool.worker_state(1), Some(WorkerState::Running));

    pool.finish(1, JobOutcome::Completed);
    assert_eq!(pool.worker_state(0), Some(WorkerState::Running));
    assert_eq!(pool.worker_state(1), Some(WorkerState::Idle));
}

#[test]
fn teardown_of_an_unused_pool_joins_every_worker() {
    let mut pool = numbered_pool(3);

    assert_eq!(pool.shutdown_step(), ShutdownStep::Closed);
    assert!(!pool.is_open());

    assert_eq!(pool.shutdown_step(), ShutdownStep::Wait(0));
    assert_eq!(pool.shutdown_step(), ShutdownStep::Wait(0));
    assert_eq!(pool.receive(0), Received::Disconnected);
    assert_eq!(pool.worker_state(0), Some(WorkerState::Stopped));
    assert_eq!(pool.shutdown_step(), ShutdownStep::Joined(0));
    assert!(!pool.is_joinable(0));

    assert_eq!(pool.shutdown_step(), ShutdownStep::Wait(1));
    assert_eq!(pool.receive(2), Received::Disconnected);
    assert_eq!(pool.shutdown_step(), ShutdownStep::Wait(1));
    assert_eq!(pool.receive(1), Received::Disconnected);
    assert_eq!(pool.shutdown_step(), ShutdownStep::Joined(1));
    assert_eq!(pool.shutdown_step(), ShutdownStep::Joined(2));

    assert_eq!(pool.shutdown_step(), ShutdownStep::Done);
    assert_eq!(pool.live_workers(), 0);
    for id in 0..3 {
        assert!(!pool.is_joinable(id));
        assert_eq!(pool.worker_state(id), Some(WorkerState::Stopped));
    }
}

#[test]
fn teardown_lets_accepted_jobs_complete() {
    let mut pool = numbered_pool(2);
    for job in [10u32, 20, 30] {
        pool.execute(job);
    }
    assert_eq!(pool.receive(1), Received::Job(10));

    assert_eq!(pool.shutdown_step(), ShutdownStep::Closed);
    assert_eq!(pool.pending(), 2);

    assert_eq!(pool.shutdown_step(), ShutdownStep::Wait(0));
    assert_eq!(pool.receive(0), Received::Job(20));
    assert_eq!(pool.shutdown_step(), ShutdownStep::Wait(0));
    pool.finish(0, JobOutcome::Completed);
    pool.finish(1, JobOutcome::Completed);
    assert_eq!(pool.receive(1), Received::Job(30));
    assert_eq!(pool.receive(0), Received::Disconnected);
    assert_eq!(pool.shutdown_step(), ShutdownStep::Joined(0));

    assert_eq!(pool.shutdown_step(), ShutdownStep::Wait(1));
    pool.finish(1, JobOutcome::Completed);
    assert_eq!(pool.receive(1), Received::Disconnected);
    assert_eq!(pool.shutdown_step(), ShutdownStep::Joined(1));
    assert_eq!(pool.shutdown_step(), ShutdownStep::Done);
    assert_eq!(pool.pending(), 0);
}

#[test]
fn teardown_with_a_backlog_ends_for_every_pool_size() {
    for size in 1..5usize {
        for backlog in [0u32, 1, 4, 9] {
            let mut pool = numbered_pool(size);
            for job in 0..backlog {
                pool.execute(job);
            }
            let steps = tear_down(&mut pool);
            assert_eq!(steps.len(), size + 1);
            assert_eq!(steps[0], ShutdownStep::Closed);
            for id in 0..size {
                assert_eq!(steps[id + 1], ShutdownStep::Joined(id));
            }
            assert_eq!(pool.pending(), 0);
            assert_eq!(pool.live_workers(), 0);
        }
    }
}

#[test]
fn teardown_can_be_repeated() {
    let mut pool = numbered_pool(2);
    let steps = tear_down(&mut pool);
    assert_eq!(
        steps,
        vec![ShutdownStep::Closed, ShutdownStep::Joined(0), ShutdownStep::Joined(1)]
    );
    assert_eq!(pool.shutdown_step(), ShutdownStep::Done);
    assert_eq!(pool.shutdown_step(), ShutdownStep::Done);
    assert_eq!(tear_down(&mut pool), vec![]);
}

#[test]
fn four_workers_one_job_then_teardown() {
    let mut pool = create_pool(4).unwrap();
    assert_eq!(pool.live_workers(), 4);

    pool.execute(|| {});
    match pool.receive(3) {
        Received::Job(job) => job(),
        _ => panic!("the job was not handed out"),
    }
    pool.finish(3, JobOutcome::Completed);

    assert_eq!(pool.shutdown_step(), ShutdownStep::Closed);
    for id in 0..4 {
        assert_eq!(pool.shutdown_step(), ShutdownStep::Wait(id));
        assert_eq!(pool.receive(id), Received::Disconnected);
        assert_eq!(pool.shutdown_step(), ShutdownStep::Joined(id));
    }
    assert_eq!(pool.shutdown_step(), ShutdownStep::Done);
    for id in 0..4 {
        assert!(!pool.is_joinable(id));
    }
    assert_eq!(pool.live_workers(), 0);
}

#[test]
fn creation_error_says_what_failed() {
    let built: Result<ThreadPool<u32>, PoolCreationError> = ThreadPool::build(0);
    match built {
        Ok(_) => panic!("a pool of no workers was built"),
        Err(error) => assert_eq!(error.throw(), String::from("Thread pool not created")),
    }
}

#[test]
fn a_faulting_job_costs_one_worker_only() {
    let mut pool = numbered_pool(2);
    pool.execute(1);
    assert_eq!(pool.receive(0), Received::Job(1));
    pool.finish(0, JobOutcome::Faulted);
    assert_eq!(pool.worker_state(0), Some(WorkerState::Faulted));
    assert_eq!(pool.live_workers(), 1);
    assert!(pool.is_open());

    pool.execute(2);
    assert_eq!(pool.receive(1), Received::Job(2));
    pool.finish(1, JobOutcome::Completed);
    assert_eq!(pool.worker_state(1), Some(WorkerState::Idle));

    assert_eq!(pool.shutdown_step(), ShutdownStep::Closed);
    assert_eq!(
        pool.shutdown_step(),
        ShutdownStep::JoinFailed(JoinError { id: 0 })
    );
    assert!(!pool.is_joinable(0));
    assert_eq!(pool.shutdown_step(), ShutdownStep::Wait(1));
    assert_eq!(pool.receive(1), Received::Disconnected);
    assert_eq!(pool.shutdown_step(), ShutdownStep::Joined(1));
    assert_eq!(pool.shutdown_step(), ShutdownStep::Done);
}

#[test]
fn jobs_outlive_a_pool_whose_workers_are_all_lost() {
    let mut pool = numbered_pool(1);
    pool.execute(1);
    pool.execute(2);
    assert_eq!(pool.receive(0), Received::Job(1));
    pool.finish(0, JobOutcome::Faulted);

    assert_eq!(pool.shutdown_step(), ShutdownStep::Closed);
    assert_eq!(
        pool.shutdown_step(),
        ShutdownStep::JoinFailed(JoinError { id: 0 })
    );
    assert_eq!(pool.shutdown_step(), ShutdownStep::Done);
    assert_eq!(pool.pending(), 1);
    assert_eq!(pool.live_workers(), 0);
}
