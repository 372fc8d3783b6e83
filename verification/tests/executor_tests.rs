//! Behaviour of the executor: spawning, waking, fairness.

use forms::executor::{AsyncExecutor, PollContext, PollStatus, TaskFuture, Waker};
use std::cell::RefCell;
use std::rc::Rc;

/// A test future driven by a shared script; every poll is appended to a
/// shared log so the tests can observe the executor's behaviour.
enum TestFut {
    /// Completes on its first poll.
    Ready,
    /// Stays pending forever and never wakes anyone.
    Sleep,
    /// Completes after waking itself the given number of times.
    YieldTimes(u32),
    /// Spawns a `Ready` child, then completes.
    SpawnChild,
}

struct Logged {
    fut: TestFut,
    log: Rc<RefCell<Vec<usize>>>,
}

impl TaskFuture for Logged {
    fn poll(&mut self, ctx: &mut PollContext<Logged>, self_id: usize) -> PollStatus {
        self.log.borrow_mut().push(self_id);
        match &mut self.fut {
            TestFut::Ready => PollStatus::Ready,
            TestFut::Sleep => PollStatus::Pending,
            TestFut::YieldTimes(n) => {
                if *n == 0 {
                    PollStatus::Ready
                } else {
                    *n -= 1;
                    ctx.wake(Waker::for_task(self_id));
                    PollStatus::Pending
                }
            }
            TestFut::SpawnChild => {
                ctx.spawn(
                    String::from("child"),
                    Logged { fut: TestFut::Ready, log: Rc::clone(&self.log) },
                );
                PollStatus::Ready
            }
        }
    }
}

fn new_logged_executor() -> (AsyncExecutor<Logged>, Rc<RefCell<Vec<usize>>>) {
    (AsyncExecutor::new(), Rc::new(RefCell::new(Vec::new())))
}

#[test]
fn ready_task_polled_exactly_once() {
    let (mut ex, log) = new_logged_executor();
    let (id, posted) = ex.spawn(
        String::from("ready"),
        Logged { fut: TestFut::Ready, log: Rc::clone(&log) },
    );
    assert_eq!(id, 0);
    assert!(posted, "the first spawn must request a wakeup");

    let (posted, _) = ex.poll_all();
    assert!(!posted, "a drained cycle requests no further wakeup");
    assert_eq!(*log.borrow(), vec![0]);

    // No wakeup is ever issued on the completed task's behalf again.
    assert!(!ex.wake(Waker::for_task(0)));
    let (posted, _) = ex.poll_all();
    assert!(!posted);
    assert_eq!(*log.borrow(), vec![0], "a completed task is never re-polled");
}

#[test]
fn second_spawn_does_not_duplicate_the_wakeup() {
    let (mut ex, log) = new_logged_executor();
    let (_, first) = ex.spawn(
        String::from("a"),
        Logged { fut: TestFut::Ready, log: Rc::clone(&log) },
    );
    let (_, second) = ex.spawn(
        String::from("b"),
        Logged { fut: TestFut::Ready, log: Rc::clone(&log) },
    );
    assert!(first);
    assert!(!second, "at most one wakeup is in flight");
    let (_, _) = ex.poll_all();
    assert_eq!(*log.borrow(), vec![0, 1]);
}

#[test]
fn redundant_wakes_queue_at_most_once() {
    let (mut ex, log) = new_logged_executor();
    let (id, _) = ex.spawn(
        String::from("sleeper"),
        Logged { fut: TestFut::Sleep, log: Rc::clone(&log) },
    );
    let (_, _) = ex.poll_all();
    assert_eq!(*log.borrow(), vec![0]);

    // The task is now pending and out of the queue: the first wake
    // re-queues it and requests a wakeup; every further wake is absorbed.
    let w = Waker::for_task(id);
    assert!(ex.wake_by_ref(&w));
    assert!(!ex.wake_by_ref(&w));
    assert!(!ex.wake(w));

    let (_, _) = ex.poll_all();
    assert_eq!(*log.borrow(), vec![0, 0], "one queue entry, one poll");
}

#[test]
fn wake_of_unknown_task_is_ignored() {
    let (mut ex, log) = new_logged_executor();
    assert!(!ex.wake(Waker::for_task(7)));
    let (posted, _) = ex.poll_all();
    assert!(!posted);
    assert!(log.borrow().is_empty());
}

#[test]
fn fairness_cap_yields_back_to_the_event_loop() {
    let (mut ex, log) = new_logged_executor();
    ex.set_max_polls_per_cycle(2);
    for i in 0..3u32 {
        let (_, _) = ex.spawn(
            format!("task-{i}"),
            Logged { fut: TestFut::Ready, log: Rc::clone(&log) },
        );
    }

    // More ready tasks than the cap: the cycle stops at two polls and
    // re-arms the wakeup while work remains.
    let (rearmed, _) = ex.poll_all();
    assert!(rearmed, "the cap was hit with work remaining");
    assert_eq!(*log.borrow(), vec![0, 1]);

    let (posted, _) = ex.poll_all();
    assert!(!posted);
    assert_eq!(*log.borrow(), vec![0, 1, 2]);
}

#[test]
fn self_waking_task_runs_until_done() {
    let (mut ex, log) = new_logged_executor();
    let (_, _) = ex.spawn(
        String::from("yielder"),
        Logged { fut: TestFut::YieldTimes(3), log: Rc::clone(&log) },
    );
    let (_, _) = ex.poll_all();
    // A self-wake during the poll re-queues the task, so the default cap
    // of 32 lets it finish within one cycle: three yields and the final
    // completing poll.
    assert_eq!(*log.borrow(), vec![0, 0, 0, 0]);
    let (posted, _) = ex.poll_all();
    assert!(!posted);
    assert_eq!(*log.borrow(), vec![0, 0, 0, 0]);
}

#[test]
fn spawn_from_inside_a_poll_runs_in_the_same_cycle() {
    let (mut ex, log) = new_logged_executor();
    let (_, _) = ex.spawn(
        String::from("parent"),
        Logged { fut: TestFut::SpawnChild, log: Rc::clone(&log) },
    );
    let (_, _) = ex.poll_all();
    assert_eq!(*log.borrow(), vec![0, 1], "the child was polled after its parent");
}

#[test]
fn default_cap_is_thirty_two() {
    let ex: AsyncExecutor<Logged> = AsyncExecutor::new();
    assert_eq!(ex.max_polls_per_cycle(), forms::executor::DEFAULT_MAX_POLLS_PER_CYCLE);
    assert_eq!(forms::executor::DEFAULT_MAX_POLLS_PER_CYCLE, 32);
}

#[test]
fn cap_exactly_met_does_not_rearm() {
    let (mut ex, log) = new_logged_executor();
    ex.set_max_polls_per_cycle(3);
    for i in 0..3u32 {
        let (_, _) = ex.spawn(
            format!("task-{i}"),
            Logged { fut: TestFut::Ready, log: Rc::clone(&log) },
        );
    }
    // Exactly as many ready tasks as the cap: the queue empties first,
    // so no re-arm is requested.
    let (rearmed, _) = ex.poll_all();
    assert!(!rearmed);
    assert_eq!(*log.borrow(), vec![0, 1, 2]);
}

#[test]
fn polling_an_empty_executor_is_a_no_op() {
    let (mut ex, log) = new_logged_executor();
    let (posted, _) = ex.poll_all();
    assert!(!posted);
    assert!(log.borrow().is_empty());
}
