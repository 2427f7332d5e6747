//! What holds of every executor, proved from the model: the accounts of
//! every task balance, a run wakes nobody, a completed task is never driven
//! again, and a task is driven only when it was queued.

use crate::computation::{Progress, Suspendable, WakeHandle};
use crate::executor::Turn;
use crate::executor_model::{occupied, ExecutorView, TaskLedger};
use crate::ready_queue::{
    lemma_occurrences_absent, lemma_occurrences_push, lemma_occurrences_skip, occurrences,
};
use vstd::prelude::*;

verus! {

/// Where no slot is counted as occupied, every slot is empty.
pub proof fn lemma_none_occupied<C>(slots: Seq<Option<C>>)
    requires
        occupied(slots) == 0,
    ensures
        forall|i: int| 0 <= i < slots.len() ==> (#[trigger] slots[i]) is None,
    decreases slots.len(),
{
    if slots.len() > 0 {
        lemma_none_occupied(slots.drop_last());
        assert forall|i: int| 0 <= i < slots.len() implies (#[trigger] slots[i]) is None by {
            if i < slots.len() - 1 {
                assert(slots.drop_last()[i] == slots[i]);
            }
        }
    }
}

impl<C> ExecutorView<C> {
    /// Once no task is unfinished, all spawned work is done: every task has
    /// completed, none is left to drive, and whatever is still queued will be
    /// passed over.
    pub proof fn lemma_all_work_done(self, task: usize)
        requires
            self.wf(),
            self.unfinished() == 0,
            self.knows(task),
        ensures
            self.slots[task as int] is None,
            self.ledgers[task as int].completed,
            self.ledgers[task as int].drives == self.ledgers[task as int].blocked + 1,
    {
        lemma_none_occupied(self.slots);
        assert(self.balanced(task));
    }

    /// A spawn into a queue with room keeps a well-formed executor well
    /// formed.
    pub proof fn lemma_spawn_keeps_wf(self, computation: C)
        requires
            self.wf(),
            self.has_room(),
            self.slots.len() < usize::MAX,
        ensures
            self.spawn(computation).wf(),
    {
        let id = self.slots.len() as usize;
        let next = self.spawn(computation);
        lemma_occurrences_absent(self.queue, id);
        assert forall|task: usize| next.knows(task) implies #[trigger] next.balanced(task) by {
            lemma_occurrences_push(self.queue, id, task);
            if task != id {
                assert(self.balanced(task));
            }
        }
    }

    /// A wake of a known task into a queue with room keeps a well-formed
    /// executor well formed.
    pub proof fn lemma_wake_keeps_wf(self, task: usize)
        requires
            self.wf(),
            self.has_room(),
            self.knows(task),
        ensures
            self.wake(task).wf(),
    {
        let next = self.wake(task);
        assert forall|other: usize| next.knows(other) implies #[trigger] next.balanced(other) by {
            lemma_occurrences_push(self.queue, task, other);
            assert(self.balanced(other));
        }
    }

    /// A wake drives nothing and touches no slot, however often it comes: it
    /// adds one entry to the back of the queue and one wake to the ledger of
    /// its task.
    pub proof fn lemma_wake_touches_no_slot(self, task: usize)
        requires
            self.knows(task),
            self.ledgers.len() == self.slots.len(),
        ensures
            self.wake(task).slots == self.slots,
            self.wake(task).queue == self.queue.push(task),
            self.wake(task).ledgers[task as int] == (TaskLedger {
                wakes: self.ledgers[task as int].wakes + 1,
                ..self.ledgers[task as int]
            }),
            forall|other: usize|
                self.knows(other) && other != task ==> #[trigger] self.same_task(
                    self.wake(task),
                    other,
                ),
    {
    }

    /// A task that has completed after reporting `Blocked` `n` times was
    /// driven exactly `n + 1` times, and was woken at least `n` times: no
    /// drive happens without an entry on the ready queue, and but for the one
    /// of the spawn every entry is a wake. Its slot is empty.
    pub proof fn lemma_drives_of_completed_task(self, task: usize, n: nat)
        requires
            self.wf(),
            self.knows(task),
            self.ledgers[task as int].completed,
            self.ledgers[task as int].blocked == n,
        ensures
            self.ledgers[task as int].drives == n + 1,
            self.ledgers[task as int].wakes >= n,
            self.slots[task as int] is None,
    {
        assert(self.balanced(task));
    }

    /// A task that has not completed was driven as often as it reported
    /// `Blocked`, at most once more often than it was woken, and was never
    /// passed over. Its computation waits in its slot.
    pub proof fn lemma_drives_of_waiting_task(self, task: usize)
        requires
            self.wf(),
            self.knows(task),
            !self.ledgers[task as int].completed,
        ensures
            self.ledgers[task as int].drives == self.ledgers[task as int].blocked,
            self.ledgers[task as int].drives <= 1 + self.ledgers[task as int].wakes,
            self.ledgers[task as int].skips == 0,
            self.slots[task as int] is Some,
    {
        assert(self.balanced(task));
    }
}

impl<C: Suspendable> ExecutorView<C> {
    /// A step keeps a well-formed executor well formed.
    pub proof fn lemma_step_keeps_wf(self, next: ExecutorView<C>, turn: Turn)
        requires
            self.wf(),
            self.steps_to(next, turn),
        ensures
            next.wf(),
    {
        if self.queue.len() > 0 {
            assert forall|task: usize| next.knows(task) implies #[trigger] next.balanced(task) by {
                lemma_occurrences_skip(self.queue, task);
                assert(self.balanced(task));
            }
        }
    }

    /// A step wakes nobody, makes no task and touches no task but the one at
    /// the front of the queue.
    pub proof fn lemma_step_accounts(self, next: ExecutorView<C>, turn: Turn)
        requires
            self.wf(),
            self.steps_to(next, turn),
        ensures
            next.wf(),
            next.capacity == self.capacity,
            next.slots.len() == self.slots.len(),
            forall|task: usize|
                self.knows(task) ==> (#[trigger] next.ledgers[task as int]).wakes
                    == self.ledgers[task as int].wakes,
            forall|task: usize|
                self.knows(task) && (self.queue.len() == 0 || self.queue[0] != task)
                    ==> #[trigger] self.same_task(next, task),
    {
        self.lemma_step_keeps_wf(next, turn);
    }

    /// A run empties the ready queue. It wakes nobody, makes no task and
    /// touches no task that was not queued.
    pub proof fn lemma_run_accounts(self, end: ExecutorView<C>)
        requires
            self.wf(),
            self.runs_to(end),
        ensures
            end.wf(),
            end.queue.len() == 0,
            end.capacity == self.capacity,
            end.slots.len() == self.slots.len(),
            forall|task: usize|
                self.knows(task) ==> (#[trigger] end.ledgers[task as int]).wakes
                    == self.ledgers[task as int].wakes,
            forall|task: usize|
                self.knows(task) && occurrences(self.queue, task) == 0
                    ==> #[trigger] self.same_task(end, task),
        decreases self.queue.len(),
    {
        if self.queue.len() > 0 {
            let (next, turn) = choose|next: ExecutorView<C>, turn: Turn| #[trigger]
                self.steps_to(next, turn) && next.runs_to(end);
            self.lemma_step_accounts(next, turn);
            next.lemma_run_accounts(end);
            assert forall|task: usize|
                self.knows(task) && occurrences(self.queue, task) == 0 implies #[trigger]
                self.same_task(end, task) by {
                lemma_occurrences_skip(self.queue, task);
                assert(self.same_task(next, task));
                assert(next.same_task(end, task));
            }
        }
    }

    /// A run never drives a task that has completed: it passes over every
    /// entry that is still queued for the task, and the slot stays empty.
    pub proof fn lemma_run_passes_over_completed_task(self, task: usize, end: ExecutorView<C>)
        requires
            self.wf(),
            self.knows(task),
            self.ledgers[task as int].completed,
            self.runs_to(end),
        ensures
            end.slots[task as int] is None,
            end.ledgers[task as int] == (TaskLedger {
                skips: self.ledgers[task as int].skips + occurrences(self.queue, task),
                ..self.ledgers[task as int]
            }),
        decreases self.queue.len(),
    {
        assert(self.balanced(task));
        if self.queue.len() > 0 {
            let (next, turn) = choose|next: ExecutorView<C>, turn: Turn| #[trigger]
                self.steps_to(next, turn) && next.runs_to(end);
            self.lemma_step_accounts(next, turn);
            lemma_occurrences_skip(self.queue, task);
            next.lemma_run_passes_over_completed_task(task, end);
        }
    }

    /// A run drives every task that is queued and holds a computation at
    /// least once.
    pub proof fn lemma_run_drives_ready_task(self, task: usize, end: ExecutorView<C>)
        requires
            self.wf(),
            self.knows(task),
            self.slots[task as int] is Some,
            occurrences(self.queue, task) > 0,
            self.runs_to(end),
        ensures
            end.ledgers[task as int].drives > self.ledgers[task as int].drives,
        decreases self.queue.len(),
    {
        if self.queue.len() > 0 {
            let (next, turn) = choose|next: ExecutorView<C>, turn: Turn| #[trigger]
                self.steps_to(next, turn) && next.runs_to(end);
            self.lemma_step_accounts(next, turn);
            lemma_occurrences_skip(self.queue, task);
            if self.queue[0] == task {
                next.lemma_run_never_undoes(task, end);
            } else {
                next.lemma_run_drives_ready_task(task, end);
            }
        }
    }

    /// One wake, one drive: a blocked task that is woken once is driven
    /// exactly once by the run that follows.
    pub proof fn lemma_wake_then_run_drives_once(self, task: usize, end: ExecutorView<C>)
        requires
            self.wf(),
            self.has_room(),
            self.knows(task),
            self.slots[task as int] is Some,
            occurrences(self.queue, task) == 0,
            self.wake(task).runs_to(end),
        ensures
            end.ledgers[task as int].drives == self.ledgers[task as int].drives + 1,
            end.ledgers[task as int].wakes == self.ledgers[task as int].wakes + 1,
            end.ledgers[task as int].skips == 0,
    {
        let woken = self.wake(task);
        self.lemma_wake_keeps_wf(task);
        woken.lemma_run_accounts(end);
        woken.lemma_run_drives_ready_task(task, end);
        assert(self.balanced(task));
        assert(end.balanced(task));
    }

    /// What a run adds to a ledger it never takes back.
    pub proof fn lemma_run_never_undoes(self, task: usize, end: ExecutorView<C>)
        requires
            self.wf(),
            self.knows(task),
            self.runs_to(end),
        ensures
            end.ledgers[task as int].drives >= self.ledgers[task as int].drives,
            end.ledgers[task as int].blocked >= self.ledgers[task as int].blocked,
            end.ledgers[task as int].skips >= self.ledgers[task as int].skips,
            self.ledgers[task as int].completed ==> end.ledgers[task as int].completed,
        decreases self.queue.len(),
    {
        if self.queue.len() > 0 {
            let (next, turn) = choose|next: ExecutorView<C>, turn: Turn| #[trigger]
                self.steps_to(next, turn) && next.runs_to(end);
            self.lemma_step_accounts(next, turn);
            next.lemma_run_never_undoes(task, end);
        }
    }

    /// A computation that completes whenever it is first driven is driven
    /// exactly once by the run that follows its spawn, and no wake is needed
    /// or made for it: afterwards its task has completed and its slot is
    /// empty.
    pub proof fn lemma_first_drive_completes(self, computation: C, end: ExecutorView<C>)
        requires
            self.wf(),
            self.has_room(),
            self.slots.len() < usize::MAX,
            forall|waker: WakeHandle, after: C, progress: Progress| #[trigger]
                computation.drives_to(waker, after, progress) ==> progress == Progress::Complete,
            self.spawn(computation).runs_to(end),
        ensures
            self.spawn(computation).wf(),
            end.knows(self.slots.len() as usize),
            end.slots[self.slots.len() as int] is None,
            end.ledgers[self.slots.len() as int] == TaskLedger::fresh().turned(
                Some(Progress::Complete),
            ),
    {
        let task = self.slots.len() as usize;
        let spawned = self.spawn(computation);
        self.lemma_spawn_keeps_wf(computation);
        spawned.lemma_fresh_task_completes(task, computation, end);
    }

    /// The induction behind `lemma_first_drive_completes`: a task that was
    /// never driven and whose computation completes on any drive is complete
    /// after a run, with one drive in its ledger.
    proof fn lemma_fresh_task_completes(self, task: usize, computation: C, end: ExecutorView<C>)
        requires
            self.wf(),
            self.knows(task),
            self.slots[task as int] == Some(computation),
            self.ledgers[task as int] == TaskLedger::fresh(),
            forall|waker: WakeHandle, after: C, progress: Progress| #[trigger]
                computation.drives_to(waker, after, progress) ==> progress == Progress::Complete,
            self.runs_to(end),
        ensures
            end.knows(task),
            end.slots[task as int] is None,
            end.ledgers[task as int] == TaskLedger::fresh().turned(Some(Progress::Complete)),
        decreases self.queue.len(),
    {
        assert(self.balanced(task));
        if self.queue.len() > 0 {
            let (next, turn) = choose|next: ExecutorView<C>, turn: Turn| #[trigger]
                self.steps_to(next, turn) && next.runs_to(end);
            self.lemma_step_accounts(next, turn);
            lemma_occurrences_skip(self.queue, task);
            if self.queue[0] == task {
                next.lemma_run_accounts(end);
                assert(next.same_task(end, task));
            } else {
                assert(self.same_task(next, task));
                next.lemma_fresh_task_completes(task, computation, end);
            }
        }
    }
}

} // verus!
