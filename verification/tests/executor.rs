use coop_executor::{
    Executor, Progress, QueueFull, Suspendable, Turn, WakeError, WakeHandle, MAX_QUEUED_TASKS,
};
use std::cell::RefCell;
use std::rc::Rc;

/// What the computations of one test have seen, in the order in which it
/// happened.
#[derive(Default)]
struct Journal {
    /// The handle of every drive.
    drives: Vec<WakeHandle>,
    /// How often a drive reported `Complete`.
    completions: usize,
}

/// Reports `Blocked` a given number of times, then `Complete`.
struct Scripted {
    blocks_left: usize,
    journal: Rc<RefCell<Journal>>,
}

impl Scripted {
    fn new(blocks_left: usize, journal: &Rc<RefCell<Journal>>) -> Scripted {
        Scripted { blocks_left, journal: journal.clone() }
    }
}

impl Suspendable for Scripted {
    fn drive(&mut self, waker: WakeHandle) -> Progress {
        let mut journal = self.journal.borrow_mut();
        journal.drives.push(waker);
        if self.blocks_left == 0 {
            journal.completions += 1;
            Progress::Complete
        } else {
            self.blocks_left -= 1;
            Progress::Blocked
        }
    }
}

fn journal() -> Rc<RefCell<Journal>> {
    Rc::new(RefCell::new(Journal::default()))
}

fn drives_of(journal: &Rc<RefCell<Journal>>, waker: WakeHandle) -> usize {
    journal.borrow().drives.iter().filter(|seen| **seen == waker).count()
}

#[test]
fn default_capacity_is_ten_thousand() {
    assert_eq!(MAX_QUEUED_TASKS, 10_000);
}

#[test]
fn default_executor_has_the_default_capacity() {
    let executor: Executor<Scripted> = Executor::default();
    assert_eq!(executor.capacity(), MAX_QUEUED_TASKS);
    assert_eq!(executor.task_count(), 0);
    assert!(executor.is_idle());
}

#[test]
fn new_executor_has_no_tasks() {
    let executor: Executor<Scripted> = Executor::new(7);
    assert_eq!(executor.capacity(), 7);
    assert_eq!(executor.task_count(), 0);
    assert_eq!(executor.queued(), 0);
    assert!(executor.is_idle());
    assert!(!executor.has_completed(WakeHandle { task: 0 }));
}

#[test]
fn spawn_numbers_tasks_in_order_and_queues_them() {
    let journal = journal();
    let mut executor = Executor::new(10);
    assert_eq!(executor.spawn(Scripted::new(0, &journal)), Ok(WakeHandle { task: 0 }));
    assert_eq!(executor.spawn(Scripted::new(0, &journal)), Ok(WakeHandle { task: 1 }));
    assert_eq!(executor.spawn(Scripted::new(0, &journal)), Ok(WakeHandle { task: 2 }));
    assert_eq!(executor.task_count(), 3);
    assert_eq!(executor.queued(), 3);
    assert!(!executor.is_idle());
    assert!(journal.borrow().drives.is_empty());
}

#[test]
fn immediate_completion_takes_one_drive_and_no_wake() {
    let journal = journal();
    let mut executor = Executor::new(4);
    let waker = executor.spawn(Scripted::new(0, &journal)).unwrap();
    executor.run();
    assert_eq!(journal.borrow().drives, vec![waker]);
    assert_eq!(journal.borrow().completions, 1);
    assert!(executor.has_completed(waker));
    assert!(executor.is_idle());
    // Nothing was woken, so nothing more is driven.
    executor.run();
    assert_eq!(executor.step(), Turn::Idle);
    assert_eq!(journal.borrow().drives.len(), 1);
}

#[test]
fn blocked_n_times_takes_n_plus_one_drives_and_n_wakes() {
    for blocks in [1usize, 2, 5, 17] {
        let journal = journal();
        let mut executor = Executor::new(4);
        let waker = executor.spawn(Scripted::new(blocks, &journal)).unwrap();
        let mut wakes = 0;
        executor.run();
        while !executor.has_completed(waker) {
            // Blocked and not queued: without a wake nothing happens.
            assert!(executor.is_idle());
            let drives = journal.borrow().drives.len();
            executor.run();
            assert_eq!(journal.borrow().drives.len(), drives);
            assert_eq!(executor.wake(waker), Ok(()));
            wakes += 1;
            executor.run();
        }
        assert_eq!(journal.borrow().drives.len(), blocks + 1);
        assert_eq!(journal.borrow().completions, 1);
        assert_eq!(wakes, blocks);
    }
}

#[test]
fn unfinished_counts_the_tasks_that_have_not_completed() {
    let journal = journal();
    let mut executor = Executor::new(8);
    assert_eq!(executor.unfinished(), 0);
    let quick = executor.spawn(Scripted::new(0, &journal)).unwrap();
    let slow = executor.spawn(Scripted::new(2, &journal)).unwrap();
    let slower = executor.spawn(Scripted::new(4, &journal)).unwrap();
    assert_eq!(executor.unfinished(), 3);
    executor.run();
    assert!(executor.has_completed(quick));
    assert_eq!(executor.unfinished(), 2);
    for expected in [2, 1, 1] {
        executor.wake(slow).unwrap();
        executor.wake(slower).unwrap();
        executor.wake(quick).unwrap();
        executor.run();
        assert_eq!(executor.unfinished(), expected);
    }
    executor.wake(slower).unwrap();
    assert_eq!(executor.unfinished(), 1);
    executor.run();
    assert_eq!(executor.unfinished(), 0);
    assert_eq!(executor.task_count(), 3);
    assert_eq!(journal.borrow().completions, 3);
}

#[test]
fn step_reports_what_it_did() {
    let journal = journal();
    let mut executor = Executor::new(4);
    assert_eq!(executor.step(), Turn::Idle);
    let first = executor.spawn(Scripted::new(1, &journal)).unwrap();
    let second = executor.spawn(Scripted::new(0, &journal)).unwrap();
    assert_eq!(executor.step(), Turn::Drove { task: 0, progress: Progress::Blocked });
    assert_eq!(executor.queued(), 1);
    assert!(!executor.has_completed(first));
    assert_eq!(executor.step(), Turn::Drove { task: 1, progress: Progress::Complete });
    assert!(executor.has_completed(second));
    assert_eq!(executor.step(), Turn::Idle);
    assert_eq!(executor.wake(second), Ok(()));
    assert_eq!(executor.step(), Turn::Skipped { task: 1 });
    assert_eq!(executor.wake(first), Ok(()));
    assert_eq!(executor.step(), Turn::Drove { task: 0, progress: Progress::Complete });
    assert_eq!(executor.step(), Turn::Idle);
    assert_eq!(journal.borrow().drives, vec![first, second, first]);
}

#[test]
fn tasks_are_driven_in_the_order_they_became_ready() {
    let journal = journal();
    let mut executor = Executor::new(8);
    let a = executor.spawn(Scripted::new(1, &journal)).unwrap();
    let b = executor.spawn(Scripted::new(1, &journal)).unwrap();
    let c = executor.spawn(Scripted::new(1, &journal)).unwrap();
    executor.run();
    assert_eq!(journal.borrow().drives, vec![a, b, c]);
    assert_eq!(executor.wake(c), Ok(()));
    assert_eq!(executor.wake(a), Ok(()));
    assert_eq!(executor.wake(b), Ok(()));
    executor.run();
    assert_eq!(journal.borrow().drives, vec![a, b, c, c, a, b]);
    assert_eq!(journal.borrow().completions, 3);
}

#[test]
fn wake_does_not_touch_the_slot() {
    let journal = journal();
    let mut executor = Executor::new(4);
    let waker = executor.spawn(Scripted::new(3, &journal)).unwrap();
    executor.run();
    assert_eq!(executor.wake(waker), Ok(()));
    assert_eq!(executor.queued(), 1);
    assert!(!executor.has_completed(waker));
    assert_eq!(journal.borrow().drives.len(), 1);
}

#[test]
fn duplicate_wakes_of_a_blocked_task_drive_it_again() {
    let journal = journal();
    let mut executor = Executor::new(4);
    let waker = executor.spawn(Scripted::new(2, &journal)).unwrap();
    executor.run();
    assert_eq!(executor.wake(waker), Ok(()));
    assert_eq!(executor.wake(waker), Ok(()));
    assert_eq!(executor.queued(), 2);
    executor.run();
    // Two entries, two drives: the second one completes the task.
    assert_eq!(drives_of(&journal, waker), 3);
    assert_eq!(journal.borrow().completions, 1);
    assert!(executor.has_completed(waker));
}

#[test]
fn wakes_of_a_completed_task_are_passed_over() {
    let journal = journal();
    let mut executor = Executor::new(4);
    let waker = executor.spawn(Scripted::new(0, &journal)).unwrap();
    executor.run();
    for _ in 0..3 {
        assert_eq!(executor.wake(waker), Ok(()));
    }
    assert_eq!(executor.queued(), 3);
    executor.run();
    assert!(executor.is_idle());
    assert_eq!(drives_of(&journal, waker), 1);
    assert_eq!(journal.borrow().completions, 1);
}

#[test]
fn hundred_trivial_computations_are_each_driven_once() {
    let journal = journal();
    let mut executor = Executor::new(MAX_QUEUED_TASKS);
    let mut wakers = Vec::new();
    for _ in 0..100 {
        wakers.push(executor.spawn(Scripted::new(0, &journal)).unwrap());
    }
    assert_eq!(executor.queued(), 100);
    executor.run();
    assert_eq!(executor.queued(), 0);
    assert!(executor.is_idle());
    assert_eq!(executor.unfinished(), 0);
    assert_eq!(journal.borrow().drives, wakers);
    assert_eq!(journal.borrow().completions, 100);
    for waker in wakers {
        assert_eq!(drives_of(&journal, waker), 1);
        assert!(executor.has_completed(waker));
    }
}

#[test]
fn third_spawn_into_a_queue_of_two_fails() {
    let journal = journal();
    let mut executor = Executor::new(2);
    assert_eq!(executor.spawn(Scripted::new(0, &journal)), Ok(WakeHandle { task: 0 }));
    assert_eq!(executor.spawn(Scripted::new(0, &journal)), Ok(WakeHandle { task: 1 }));
    assert_eq!(executor.spawn(Scripted::new(0, &journal)), Err(QueueFull));
    // The refused spawn left no trace.
    assert_eq!(executor.task_count(), 2);
    assert_eq!(executor.queued(), 2);
    executor.run();
    assert_eq!(journal.borrow().drives, vec![WakeHandle { task: 0 }, WakeHandle { task: 1 }]);
    // With the queue drained there is room again.
    assert_eq!(executor.spawn(Scripted::new(0, &journal)), Ok(WakeHandle { task: 2 }));
}

#[test]
fn wake_into_a_full_queue_fails() {
    let journal = journal();
    let mut executor = Executor::new(2);
    let waker = executor.spawn(Scripted::new(5, &journal)).unwrap();
    executor.run();
    assert_eq!(executor.wake(waker), Ok(()));
    assert_eq!(executor.wake(waker), Ok(()));
    assert_eq!(executor.wake(waker), Err(WakeError::QueueFull));
    assert_eq!(executor.queued(), 2);
    executor.run();
    assert_eq!(drives_of(&journal, waker), 3);
}

#[test]
fn wake_of_an_unknown_task_fails() {
    let journal = journal();
    let mut executor = Executor::new(2);
    assert_eq!(executor.wake(WakeHandle { task: 0 }), Err(WakeError::UnknownTask));
    let waker = executor.spawn(Scripted::new(0, &journal)).unwrap();
    assert_eq!(executor.wake(WakeHandle { task: waker.task + 1 }), Err(WakeError::UnknownTask));
    assert_eq!(executor.queued(), 1);
    // An unknown task is reported even when the queue is full as well.
    assert_eq!(executor.wake(waker), Ok(()));
    assert_eq!(executor.wake(WakeHandle { task: 9 }), Err(WakeError::UnknownTask));
    assert_eq!(executor.wake(waker), Err(WakeError::QueueFull));
}

/// Counts how many of its kind were dropped.
struct Mortal {
    blocks_left: usize,
    dropped: Rc<RefCell<usize>>,
}

impl Suspendable for Mortal {
    fn drive(&mut self, _waker: WakeHandle) -> Progress {
        if self.blocks_left == 0 {
            Progress::Complete
        } else {
            self.blocks_left -= 1;
            Progress::Blocked
        }
    }
}

impl Drop for Mortal {
    fn drop(&mut self) {
        *self.dropped.borrow_mut() += 1;
    }
}

#[test]
fn a_computation_is_dropped_when_it_completes() {
    let dropped = Rc::new(RefCell::new(0));
    let mut executor = Executor::new(4);
    let waker =
        executor.spawn(Mortal { blocks_left: 1, dropped: dropped.clone() }).unwrap();
    executor.run();
    // Blocked: the executor still owns the computation.
    assert_eq!(*dropped.borrow(), 0);
    executor.wake(waker).unwrap();
    executor.run();
    assert_eq!(*dropped.borrow(), 1);
    assert!(executor.has_completed(waker));
    // Later wakes find nothing to drop or drive.
    executor.wake(waker).unwrap();
    executor.run();
    assert_eq!(*dropped.borrow(), 1);
}

#[test]
fn a_refused_computation_is_dropped() {
    let dropped = Rc::new(RefCell::new(0));
    let mut executor = Executor::new(1);
    assert!(executor.spawn(Mortal { blocks_left: 0, dropped: dropped.clone() }).is_ok());
    assert_eq!(
        executor.spawn(Mortal { blocks_left: 0, dropped: dropped.clone() }),
        Err(QueueFull)
    );
    assert_eq!(*dropped.borrow(), 1);
    assert_eq!(executor.task_count(), 1);
}

#[test]
fn executor_without_capacity_spawns_nothing() {
    let journal = journal();
    let mut executor = Executor::new(0);
    assert_eq!(executor.spawn(Scripted::new(0, &journal)), Err(QueueFull));
    assert_eq!(executor.task_count(), 0);
    executor.run();
    assert!(journal.borrow().drives.is_empty());
}

#[test]
fn run_of_an_idle_executor_does_nothing() {
    let journal = journal();
    let mut executor = Executor::new(3);
    executor.run();
    assert!(executor.is_idle());
    let waker = executor.spawn(Scripted::new(1, &journal)).unwrap();
    executor.run();
    executor.run();
    assert_eq!(drives_of(&journal, waker), 1);
    assert_eq!(executor.task_count(), 1);
    assert_eq!(executor.capacity(), 3);
}

#[test]
fn a_task_is_driven_with_the_handle_that_spawn_returned() {
    let journal = journal();
    let mut executor = Executor::new(5);
    executor.spawn(Scripted::new(0, &journal)).unwrap();
    executor.spawn(Scripted::new(0, &journal)).unwrap();
    let waker = executor.spawn(Scripted::new(2, &journal)).unwrap();
    executor.run();
    executor.wake(waker).unwrap();
    executor.run();
    assert_eq!(waker, WakeHandle { task: 2 });
    assert_eq!(
        journal.borrow().drives,
        vec![WakeHandle { task: 0 }, WakeHandle { task: 1 }, waker, waker]
    );
}
