//! One spawned unit of work: a slot that owns the computation while nobody
//! drives it.

use crate::computation::{Progress, Suspendable, WakeHandle};
use vstd::prelude::*;

verus! {

/// What goes back into a task's slot after a drive: the computation if it is
/// blocked, nothing if it is complete.
pub open spec fn settled<C>(computation: C, progress: Progress) -> Option<C> {
    match progress {
        Progress::Blocked => Some(computation),
        Progress::Complete => None,
    }
}

/// What one turn does to a slot.
///
/// An empty slot is passed over: nothing is driven and nothing is reported. A
/// computation that waits in the slot is driven once with `waker`, and goes
/// back into the slot exactly if it reports `Blocked`.
pub open spec fn driven<C: Suspendable>(
    before: Option<C>,
    waker: WakeHandle,
    after: Option<C>,
    report: Option<Progress>,
) -> bool {
    match before {
        None => report is None && after is None,
        Some(computation) => {
            &&& report is Some
            &&& exists|then: C|
                {
                    &&& #[trigger] computation.drives_to(waker, then, report->0)
                    &&& after == settled(then, report->0)
                }
        },
    }
}

/// A task as the contracts see it.
pub struct TaskView<C> {
    /// The number under which the executor knows the task.
    pub id: usize,
    /// The computation that waits in the slot, if one does.
    pub slot: Option<C>,
}

impl<C> TaskView<C> {
    /// The handle that puts the task back on the ready queue.
    pub open spec fn wake_handle(self) -> WakeHandle {
        WakeHandle { task: self.id }
    }

    /// The task after a take, and what the take hands out: whatever was in the
    /// slot, which is empty afterwards.
    pub open spec fn take(self) -> (TaskView<C>, Option<C>) {
        (TaskView { slot: None, ..self }, self.slot)
    }

    /// The task after the end of a drive that reported `progress`.
    pub open spec fn settle(self, computation: C, progress: Progress) -> TaskView<C> {
        TaskView { slot: settled(computation, progress), ..self }
    }

    /// While a computation is out for a drive its task has nothing to give:
    /// a second take in a row finds the slot empty and changes nothing.
    pub proof fn lemma_second_take_finds_nothing(self)
        ensures
            self.take().0.take() == (self.take().0, None::<C>),
    {
    }

    /// A blocked computation is there for the next take. A complete one is
    /// gone: the next take finds nothing.
    pub proof fn lemma_take_after_settle(self, computation: C)
        ensures
            self.settle(computation, Progress::Blocked).take().1 == Some(computation),
            self.settle(computation, Progress::Complete).take().1 is None,
    {
    }
}

impl<C: Suspendable> TaskView<C> {
    /// What one turn does to a task: `self` is the task before the turn,
    /// `after` the task after it, `report` what its computation reported, if
    /// one was driven. The computation is driven with the task's own handle.
    pub open spec fn drive(self, after: TaskView<C>, report: Option<Progress>) -> bool {
        &&& after.id == self.id
        &&& driven(self.slot, self.wake_handle(), after.slot, report)
    }
}

/// A spawned unit of work.
///
/// The slot holds the computation while the task waits, and is empty while the
/// computation is out for a drive and for ever once it has completed.
#[derive(Debug)]
pub struct Task<C> {
    id: usize,
    slot: Option<C>,
}

impl<C> View for Task<C> {
    type V = TaskView<C>;

    closed spec fn view(&self) -> TaskView<C> {
        TaskView { id: self.id, slot: self.slot }
    }
}

impl<C> Task<C> {
    /// A task whose slot holds `computation`.
    pub fn new(id: usize, computation: C) -> (task: Task<C>)
        ensures
            task@ == (TaskView { id, slot: Some(computation) }),
    {
        Task { id, slot: Some(computation) }
    }

    /// The handle that puts the task back on the ready queue.
    pub fn wake_handle(&self) -> (waker: WakeHandle)
        ensures
            waker == self@.wake_handle(),
    {
        WakeHandle { task: self.id }
    }

    /// Whether a computation waits in the slot.
    pub fn is_occupied(&self) -> (occupied: bool)
        ensures
            occupied == self@.slot is Some,
    {
        self.slot.is_some()
    }

    /// Takes the computation out of the slot for a drive, leaving the slot
    /// empty. Returns nothing if the slot is empty already.
    pub fn take(&mut self) -> (computation: Option<C>)
        ensures
            (final(self)@, computation) == old(self)@.take(),
    {
        self.slot.take()
    }

    /// Ends a drive: a blocked computation goes back into the slot, a complete
    /// one is dropped and the slot is empty.
    pub fn settle(&mut self, computation: C, progress: Progress)
        ensures
            final(self)@ == old(self)@.settle(computation, progress),
    {
        match progress {
            Progress::Blocked => {
                self.slot = Some(computation);
            },
            Progress::Complete => {
                self.slot = None;
            },
        }
    }
}

impl<C: Suspendable> Task<C> {
    /// Gives the task one turn: drives the computation in the slot once, with
    /// the task's own wake handle, and puts it back if it is still blocked.
    /// Reports what the computation reported, or nothing if the slot was empty.
    pub fn drive(&mut self) -> (report: Option<Progress>)
        ensures
            old(self)@.drive(final(self)@, report),
    {
        let waker = self.wake_handle();
        match self.take() {
            None => None,
            Some(mut computation) => {
                let progress = computation.drive(waker);
                self.settle(computation, progress);
                Some(progress)
            },
        }
    }
}

} // verus!
