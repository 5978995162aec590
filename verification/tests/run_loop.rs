use uio::executor::{Executor, NotifyHandle, RunOutcome, SpawnSet, TaskResult, TypedTask};
use uio::future::{Progress, Value};
use uio::task::{Task, TaskWaker};

enum TestComp {
    /// Completes with 41 after suspending once; re-arms itself so the same
    /// `run` call picks it up again.
    Sub { armed: bool },
    /// Starts a `Sub` subtask, then waits on its join handle and finishes
    /// with the observed value plus one.
    Main { join: Option<TaskResult> },
    /// Suspends forever without arming anything.
    Stuck,
    /// Re-arms itself and stays pending: burns budget every pass.
    Spinner,
}

impl TypedTask<i32, ()> for TestComp {
    fn resume(
        &mut self,
        handle: NotifyHandle,
        wakers: &mut Vec<TaskWaker>,
        values: &mut Vec<Value<i32>>,
        spawned: &mut SpawnSet<Self>,
        _env: &mut (),
    ) -> Progress<i32> {
        match self {
            TestComp::Sub { armed } => {
                if *armed {
                    Progress::Ready(41)
                } else {
                    *armed = true;
                    handle.notify(wakers);
                    Progress::Pending
                }
            }
            TestComp::Main { join } => {
                if join.is_none() {
                    let sub = Task::new(TestComp::Sub { armed: false }, 1, wakers);
                    *join = Some(spawned.start(sub, values));
                }
                let handle_copy = *join.as_ref().unwrap();
                match handle_copy.join(values, handle) {
                    Progress::Ready(v) => Progress::Ready(v + 1),
                    Progress::Pending => Progress::Pending,
                }
            }
            TestComp::Stuck => Progress::Pending,
            TestComp::Spinner => {
                handle.notify(wakers);
                Progress::Pending
            }
        }
    }
}

#[test]
fn join_observes_subtask_value_once() {
    let mut exec: Executor<TestComp> = Executor::new();
    let mut wakers = vec![TaskWaker::new(), TaskWaker::new()];
    let mut values: Vec<Value<i32>> = Vec::new();
    let mut env = ();

    let main_task = Task::new(TestComp::Main { join: None }, 0, &mut wakers);
    let result = exec.start(main_task, &mut values, &mut wakers);

    let (outcome, _) = exec.run(&mut wakers, &mut values, &mut env, 100);
    assert_eq!(outcome, RunOutcome::Drained);
    assert!(wakers[0].is_finished());
    assert!(wakers[1].is_finished());

    match result.join(&mut values, NotifyHandle::empty()) {
        Progress::Ready(v) => assert_eq!(v, 42),
        Progress::Pending => panic!("the main task's value never arrived"),
    }
    assert!(matches!(result.join(&mut values, NotifyHandle::empty()), Progress::Pending));
}

#[test]
fn run_stops_when_no_task_is_ready() {
    let mut exec: Executor<TestComp> = Executor::new();
    let mut wakers = vec![TaskWaker::new()];
    let mut values: Vec<Value<i32>> = Vec::new();
    let mut env = ();

    let task = Task::new(TestComp::Stuck, 0, &mut wakers);
    let _result = exec.start(task, &mut values, &mut wakers);

    let (outcome, _) = exec.run(&mut wakers, &mut values, &mut env, 100);
    assert_eq!(outcome, RunOutcome::Stalled);
}

#[test]
fn run_stops_when_the_budget_is_spent() {
    let mut exec: Executor<TestComp> = Executor::new();
    let mut wakers = vec![TaskWaker::new()];
    let mut values: Vec<Value<i32>> = Vec::new();
    let mut env = ();

    let task = Task::new(TestComp::Spinner, 0, &mut wakers);
    let _result = exec.start(task, &mut values, &mut wakers);

    let (outcome, _) = exec.run(&mut wakers, &mut values, &mut env, 10);
    assert_eq!(outcome, RunOutcome::SpentBudget);
}

#[test]
fn empty_executor_drains_immediately() {
    let mut exec: Executor<TestComp> = Executor::new();
    let mut wakers: Vec<TaskWaker> = Vec::new();
    let mut values: Vec<Value<i32>> = Vec::new();
    let mut env = ();
    assert_eq!(exec.run(&mut wakers, &mut values, &mut env, 10).0, RunOutcome::Drained);
}
