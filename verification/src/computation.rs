//! The contract between a suspendable computation and whatever drives it.

use vstd::prelude::*;

verus! {

/// What one drive of a suspendable computation reports.
#[derive(Clone, Copy, Debug, PartialEq, Eq, Structural)]
pub enum Progress {
    /// The computation has finished and must not be driven again.
    Complete,
    /// The computation cannot go on yet. It has kept the wake handle of this
    /// drive, and somebody will use it once progress is possible.
    Blocked,
}

/// The capability to put one particular task back on the ready queue.
///
/// A handle is a plain value: it names its task and nothing else. Using it
/// means handing it to the executor that spawned the task.
#[derive(Clone, Copy, Debug, PartialEq, Eq, Structural)]
pub struct WakeHandle {
    /// The number that the executor gave the task when it was spawned.
    pub task: usize,
}

/// A computation that, when driven, either completes or reports that it is
/// blocked and must be driven again later.
pub trait Suspendable: Sized {
    /// What one drive may do: `self` is the computation before the drive,
    /// `waker` the handle it was given, `after` the computation afterwards and
    /// `progress` its report.
    ///
    /// An implementation that says nothing allows every outcome.
    open spec fn drives_to(self, waker: WakeHandle, after: Self, progress: Progress) -> bool {
        true
    }

    /// Resumes the computation once. On `Blocked` the computation has kept
    /// `waker`, or passed it on, so that the task is woken when it can go on.
    fn drive(&mut self, waker: WakeHandle) -> (progress: Progress)
        ensures
            old(self).drives_to(waker, *final(self), progress),
    ;
}

} // verus!
