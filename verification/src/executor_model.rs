//! The executor as the contracts see it: its slots, its ready queue and the
//! history of every task, with what a spawn, a wake, a step and a run do to
//! them.

use crate::computation::{Progress, Suspendable, WakeHandle};
use crate::executor::Turn;
use crate::ready_queue::occurrences;
use crate::task::driven;
use vstd::prelude::*;

verus! {

/// The history of one task, kept for the proofs: how often it was woken,
/// driven and passed over, and what it reported.
pub struct TaskLedger {
    /// The wakes that put the task on the ready queue.
    pub wakes: nat,
    /// The drives of the task's computation.
    pub drives: nat,
    /// The queue entries that found the task's slot empty.
    pub skips: nat,
    /// The drives that reported `Blocked`.
    pub blocked: nat,
    /// Whether a drive has reported `Complete`.
    pub completed: bool,
}

impl TaskLedger {
    /// The ledger of a task that was just spawned.
    pub open spec fn fresh() -> TaskLedger {
        TaskLedger { wakes: 0, drives: 0, skips: 0, blocked: 0, completed: false }
    }

    /// The ledger after one more wake.
    pub open spec fn woken(self) -> TaskLedger {
        TaskLedger { wakes: self.wakes + 1, ..self }
    }

    /// The ledger after one more turn that ended with `report`.
    pub open spec fn turned(self, report: Option<Progress>) -> TaskLedger {
        match report {
            None => TaskLedger { skips: self.skips + 1, ..self },
            Some(Progress::Blocked) => TaskLedger {
                drives: self.drives + 1,
                blocked: self.blocked + 1,
                ..self
            },
            Some(Progress::Complete) => TaskLedger {
                drives: self.drives + 1,
                completed: true,
                ..self
            },
        }
    }

    /// What holds of a task's ledger between any two operations, where
    /// `queued` is the number of its entries on the ready queue and `occupied`
    /// says whether its slot holds a computation.
    ///
    /// Every entry that was ever queued for the task, one by the spawn and one
    /// by each wake, either waits still or has ended in a drive or a skip.
    /// Every drive has reported `Blocked`, but for the one that completed the
    /// task. The slot is empty exactly once the task has completed, and only
    /// then is an entry passed over.
    pub open spec fn balanced(self, queued: nat, occupied: bool) -> bool {
        &&& 1 + self.wakes == self.drives + self.skips + queued
        &&& self.drives == self.blocked + if self.completed {
            1nat
        } else {
            0nat
        }
        &&& self.completed == !occupied
        &&& self.skips > 0 ==> self.completed
    }
}

/// How many of the slots hold a computation.
pub open spec fn occupied<C>(slots: Seq<Option<C>>) -> nat
    decreases slots.len(),
{
    if slots.len() == 0 {
        0
    } else {
        occupied(slots.drop_last()) + if slots.last() is Some {
            1nat
        } else {
            0nat
        }
    }
}

/// The executor as the contracts see it.
#[verifier::ext_equal]
pub struct ExecutorView<C> {
    /// The slot of each task, by the task's number.
    pub slots: Seq<Option<C>>,
    /// The ready queue, the entry that is driven next first.
    pub queue: Seq<usize>,
    /// The number of entries that the ready queue may hold at once.
    pub capacity: nat,
    /// The history of each task, by the task's number.
    pub ledgers: Seq<TaskLedger>,
}

impl<C> ExecutorView<C> {
    /// An executor without tasks.
    pub open spec fn empty(capacity: nat) -> ExecutorView<C> {
        ExecutorView {
            slots: Seq::empty(),
            queue: Seq::empty(),
            capacity,
            ledgers: Seq::empty(),
        }
    }

    /// Whether the executor spawned a task with this number.
    pub open spec fn knows(self, task: usize) -> bool {
        task < self.slots.len()
    }

    /// The number of tasks that have not completed: their computations wait
    /// in their slots.
    pub open spec fn unfinished(self) -> nat {
        occupied(self.slots)
    }

    /// Whether the ready queue takes one more entry.
    pub open spec fn has_room(self) -> bool {
        self.queue.len() < self.capacity
    }

    /// What holds of an executor between any two operations: its numbers fit
    /// the machine, the queue keeps to its capacity and names only tasks that
    /// exist, and every task's ledger is balanced.
    pub open spec fn wf(self) -> bool {
        &&& self.slots.len() <= usize::MAX
        &&& self.ledgers.len() == self.slots.len()
        &&& self.queue.len() <= self.capacity <= usize::MAX
        &&& forall|i: int| 0 <= i < self.queue.len() ==> self.knows(#[trigger] self.queue[i])
        &&& forall|task: usize| self.knows(task) ==> #[trigger] self.balanced(task)
    }

    /// Whether the ledger of `task` agrees with the queue and with the task's
    /// slot.
    pub open spec fn balanced(self, task: usize) -> bool {
        self.ledgers[task as int].balanced(
            occurrences(self.queue, task),
            self.slots[task as int] is Some,
        )
    }

    /// Whether `task` is in `other` as it is here: the same in its slot, the
    /// same in its ledger.
    pub open spec fn same_task(self, other: ExecutorView<C>, task: usize) -> bool {
        &&& other.slots[task as int] == self.slots[task as int]
        &&& other.ledgers[task as int] == self.ledgers[task as int]
    }

    /// The executor after it has spawned `computation`: a new task, with the
    /// next free number, holds it and stands at the back of the ready queue.
    pub open spec fn spawn(self, computation: C) -> ExecutorView<C> {
        ExecutorView {
            slots: self.slots.push(Some(computation)),
            queue: self.queue.push(self.slots.len() as usize),
            capacity: self.capacity,
            ledgers: self.ledgers.push(TaskLedger::fresh()),
        }
    }

    /// The executor after a wake of `task`: one more entry for the task stands
    /// at the back of the ready queue. No slot is touched.
    pub open spec fn wake(self, task: usize) -> ExecutorView<C> {
        ExecutorView {
            slots: self.slots,
            queue: self.queue.push(task),
            capacity: self.capacity,
            ledgers: self.ledgers.update(task as int, self.ledgers[task as int].woken()),
        }
    }
}

impl<C: Suspendable> ExecutorView<C> {
    /// What one step does: `self` is the executor before the step, `next` the
    /// executor after it, `turn` what the step reports.
    ///
    /// With an empty queue nothing happens. Otherwise the entry at the front
    /// leaves the queue and its task has one turn: the computation in its slot,
    /// if there is one, is driven once with the task's own wake handle. No
    /// other slot changes, and nothing is queued.
    pub open spec fn steps_to(self, next: ExecutorView<C>, turn: Turn) -> bool {
        if self.queue.len() == 0 {
            turn == Turn::Idle && next == self
        } else {
            let task = self.queue[0];
            &&& turn == Turn::of(task, turn.report())
            &&& driven(
                self.slots[task as int],
                (WakeHandle { task }),
                next.slots[task as int],
                turn.report(),
            )
            &&& next == ExecutorView {
                slots: self.slots.update(task as int, next.slots[task as int]),
                queue: self.queue.skip(1),
                capacity: self.capacity,
                ledgers: self.ledgers.update(
                    task as int,
                    self.ledgers[task as int].turned(turn.report()),
                ),
            }
        }
    }

    /// What a run does: step after step, until the ready queue is empty.
    pub open spec fn runs_to(self, end: ExecutorView<C>) -> bool
        decreases self.queue.len(),
    {
        if self.queue.len() == 0 {
            end == self
        } else {
            exists|next: ExecutorView<C>, turn: Turn| #[trigger]
                self.steps_to(next, turn) && next.runs_to(end)
        }
    }
}

} // verus!
