//! The scheduler: it accepts computations, drives the ones that are ready and
//! queues a task again when its wake handle comes back.

use crate::computation::{Progress, Suspendable, WakeHandle};
use crate::executor_model::{occupied, ExecutorView, TaskLedger};
use crate::ready_queue::{QueueFull, ReadyQueue};
use crate::task::Task;
use vstd::prelude::*;

verus! {

/// The capacity of the ready queue of an executor that is made without one.
pub const MAX_QUEUED_TASKS: usize = 10_000;

/// Why a wake was refused.
#[derive(Clone, Copy, Debug, PartialEq, Eq, Structural)]
pub enum WakeError {
    /// The ready queue already holds as many entries as it was made for.
    QueueFull,
    /// The handle names a task that this executor never spawned.
    UnknownTask,
}

/// What one step of the executor did.
#[derive(Clone, Copy, Debug, PartialEq, Eq, Structural)]
pub enum Turn {
    /// The ready queue was empty: nothing was done.
    Idle,
    /// The entry at the front named a task whose slot was empty: the entry was
    /// dropped and nothing was driven.
    Skipped { task: usize },
    /// The task at the front was driven once and reported `progress`.
    Drove { task: usize, progress: Progress },
}

impl Turn {
    /// What the task of this turn reported, if one was driven.
    pub open spec fn report(self) -> Option<Progress> {
        match self {
            Turn::Drove { progress, .. } => Some(progress),
            _ => None,
        }
    }

    /// The turn of `task` that ended with `report`.
    pub open spec fn of(task: usize, report: Option<Progress>) -> Turn {
        match report {
            Some(progress) => Turn::Drove { task, progress },
            None => Turn::Skipped { task },
        }
    }
}

/// A single-threaded scheduler of suspendable computations.
///
/// Tasks are numbered in the order in which they were spawned. The executor
/// owns every task, and with it the computation, until the computation
/// completes.
pub struct Executor<C> {
    tasks: Vec<Task<C>>,
    ready_queue: ReadyQueue,
    ledgers: Ghost<Seq<TaskLedger>>,
}

impl<C> View for Executor<C> {
    type V = ExecutorView<C>;

    closed spec fn view(&self) -> ExecutorView<C> {
        ExecutorView {
            slots: Seq::new(self.tasks@.len(), |i: int| self.tasks@[i]@.slot),
            queue: self.ready_queue@,
            capacity: self.ready_queue.spec_capacity() as nat,
            ledgers: self.ledgers@,
        }
    }
}

impl<C> Default for Executor<C> {
    /// An executor without tasks, whose ready queue holds up to
    /// `MAX_QUEUED_TASKS` entries.
    fn default() -> (executor: Executor<C>)
        ensures
            executor.wf(),
            executor@ == ExecutorView::<C>::empty(MAX_QUEUED_TASKS as nat),
    {
        Executor::new(MAX_QUEUED_TASKS)
    }
}

impl<C> Executor<C> {
    /// Whether what is stored agrees with itself: every task stands under its
    /// own number.
    pub closed spec fn coherent(&self) -> bool {
        &&& self.ready_queue.wf()
        &&& forall|i: int| 0 <= i < self.tasks@.len() ==> (#[trigger] self.tasks@[i])@.id == i
    }

    /// Whether the executor is in order. Every executor that `new` made is,
    /// and every operation keeps it so.
    pub open spec fn wf(&self) -> bool {
        self.coherent() && self@.wf()
    }

    /// An executor without tasks, whose ready queue holds up to `capacity`
    /// entries.
    pub fn new(capacity: usize) -> (executor: Executor<C>)
        ensures
            executor.wf(),
            executor@ == ExecutorView::<C>::empty(capacity as nat),
    {
        Executor {
            tasks: Vec::new(),
            ready_queue: ReadyQueue::new(capacity),
            ledgers: Ghost(Seq::empty()),
        }
    }

    /// The number of entries that the ready queue may hold at once.
    pub fn capacity(&self) -> (capacity: usize)
        ensures
            capacity == self@.capacity,
    {
        self.ready_queue.capacity()
    }

    /// The number of tasks that were spawned so far, complete or not.
    pub fn task_count(&self) -> (count: usize)
        ensures
            count == self@.slots.len(),
    {
        self.tasks.len()
    }

    /// The number of entries on the ready queue.
    pub fn queued(&self) -> (queued: usize)
        ensures
            queued == self@.queue.len(),
    {
        self.ready_queue.len()
    }

    /// Whether nothing is ready to be driven.
    pub fn is_idle(&self) -> (idle: bool)
        ensures
            idle == (self@.queue.len() == 0),
    {
        self.ready_queue.is_empty()
    }

    /// The number of tasks that have not completed. All spawned work is done
    /// once there is none.
    pub fn unfinished(&self) -> (count: usize)
        ensures
            count == self@.unfinished(),
    {
        let mut count: usize = 0;
        let mut next: usize = 0;
        while next < self.tasks.len()
            invariant
                next <= self.tasks.len(),
                count <= next,
                count == occupied(self@.slots.take(next as int)),
            decreases self.tasks.len() - next,
        {
            proof {
                assert(self@.slots.take(next + 1).drop_last() == self@.slots.take(next as int));
            }
            if self.tasks[next].is_occupied() {
                count = count + 1;
            }
            next = next + 1;
        }
        proof {
            assert(self@.slots.take(next as int) == self@.slots);
        }
        count
    }

    /// Whether the task of `waker` is one of this executor and its slot is
    /// empty, which between two operations means that it has completed.
    pub fn has_completed(&self, waker: WakeHandle) -> (completed: bool)
        ensures
            completed == (self@.knows(waker.task) && self@.slots[waker.task as int] is None),
            self.wf() && self@.knows(waker.task) ==> completed
                == self@.ledgers[waker.task as int].completed,
    {
        proof {
            if self.wf() && self@.knows(waker.task) {
                assert(self@.balanced(waker.task));
            }
        }
        waker.task < self.tasks.len() && !self.tasks[waker.task].is_occupied()
    }

    /// Makes a task of `computation` and puts it at the back of the ready
    /// queue. Returns the new task's wake handle.
    ///
    /// Fails, and changes nothing, if the ready queue is full: the computation
    /// is dropped.
    pub fn spawn(&mut self, computation: C) -> (result: Result<WakeHandle, QueueFull>)
        requires
            old(self).wf(),
        ensures
            final(self).wf(),
            result == (if old(self)@.has_room() {
                Ok::<WakeHandle, QueueFull>(WakeHandle { task: old(self)@.slots.len() as usize })
            } else {
                Err(QueueFull)
            }),
            final(self)@ == (if result is Ok {
                old(self)@.spawn(computation)
            } else {
                old(self)@
            }),
    {
        let id = self.tasks.len();
        match self.ready_queue.push(id) {
            Err(full) => Err(full),
            Ok(()) => {
                self.tasks.push(Task::new(id, computation));
                self.ledgers = Ghost(self.ledgers@.push(TaskLedger::fresh()));
                proof {
                    vstd::std_specs::vec::axiom_spec_len(&self.tasks);
                    assert(self@ =~= old(self)@.spawn(computation));
                    old(self)@.lemma_spawn_keeps_wf(computation);
                }
                Ok(WakeHandle { task: id })
            },
        }
    }

    /// Puts the task of `waker` at the back of the ready queue, whether or not
    /// it stands there already and whatever is in its slot.
    ///
    /// Fails, and changes nothing, if this executor spawned no such task or if
    /// the ready queue is full.
    pub fn wake(&mut self, waker: WakeHandle) -> (result: Result<(), WakeError>)
        requires
            old(self).wf(),
        ensures
            final(self).wf(),
            result == (if !old(self)@.knows(waker.task) {
                Err::<(), WakeError>(WakeError::UnknownTask)
            } else if !old(self)@.has_room() {
                Err(WakeError::QueueFull)
            } else {
                Ok(())
            }),
            final(self)@ == (if result is Ok {
                old(self)@.wake(waker.task)
            } else {
                old(self)@
            }),
    {
        if waker.task >= self.tasks.len() {
            return Err(WakeError::UnknownTask);
        }
        match self.ready_queue.push(waker.task) {
            Err(_) => Err(WakeError::QueueFull),
            Ok(()) => {
                self.ledgers = Ghost(
                    self.ledgers@.update(
                        waker.task as int,
                        self.ledgers@[waker.task as int].woken(),
                    ),
                );
                proof {
                    old(self)@.lemma_wake_keeps_wf(waker.task);
                }
                Ok(())
            },
        }
    }
}

impl<C: Suspendable> Executor<C> {
    /// Takes the entry at the front of the ready queue and gives its task one
    /// turn. Does nothing if the queue is empty.
    pub fn step(&mut self) -> (turn: Turn)
        requires
            old(self).wf(),
        ensures
            final(self).wf(),
            old(self)@.steps_to(final(self)@, turn),
    {
        match self.ready_queue.pop() {
            None => Turn::Idle,
            Some(task) => {
                let report = self.tasks[task].drive();
                self.ledgers = Ghost(
                    self.ledgers@.update(task as int, self.ledgers@[task as int].turned(report)),
                );
                let turn = match report {
                    None => Turn::Skipped { task },
                    Some(progress) => Turn::Drove { task, progress },
                };
                proof {
                    let before = old(self)@;
                    let after = self@;
                    assert(after =~= ExecutorView {
                        slots: before.slots.update(task as int, after.slots[task as int]),
                        queue: before.queue.skip(1),
                        capacity: before.capacity,
                        ledgers: before.ledgers.update(
                            task as int,
                            before.ledgers[task as int].turned(turn.report()),
                        ),
                    });
                    before.lemma_step_keeps_wf(after, turn);
                }
                turn
            },
        }
    }

    /// Drives the ready tasks, in the order of the queue, until the queue is
    /// empty. A task that reports `Blocked` rests in its slot until it is
    /// woken; a task that completes is dropped.
    pub fn run(&mut self)
        requires
            old(self).wf(),
        ensures
            final(self).wf(),
            old(self)@.runs_to(final(self)@),
            final(self)@.queue.len() == 0,
            final(self)@.slots.len() == old(self)@.slots.len(),
            final(self)@.capacity == old(self)@.capacity,
    {
        let ghost start = self@;
        while !self.ready_queue.is_empty()
            invariant
                self.wf(),
                forall|end: ExecutorView<C>| #[trigger] self@.runs_to(end) ==> start.runs_to(end),
            decreases self@.queue.len(),
        {
            let ghost before = self@;
            let turn = self.step();
            proof {
                assert forall|end: ExecutorView<C>| #[trigger]
                    self@.runs_to(end) implies start.runs_to(end) by {
                    assert(before.runs_to(end));
                }
            }
        }
        proof {
            assert(self@.runs_to(self@));
            start.lemma_run_accounts(self@);
        }
    }
}

} // verus!
