//! The timer: the record that a timer's computation shares with whoever
//! counts its time, and the decisions of the one who counts.

use crate::computation::{Progress, Suspendable, WakeHandle};
use vstd::arithmetic::div_mod::{lemma_div_is_ordered, lemma_div_plus_one};
use vstd::prelude::*;

verus! {

/// What the one who counts a timer's time does next.
#[derive(Clone, Copy, Debug, PartialEq, Eq, Structural)]
pub enum TimerStep {
    /// Sleep for `sleep` units of time, call the tick callback, then ask
    /// again.
    Tick { sleep: u64 },
    /// The time is up: complete the timer and use the wake handle that
    /// `complete` hands out.
    Finish,
}

/// Whether a timer of the given duration has run out once `elapsed` units of
/// time have passed since its start.
pub open spec fn time_is_up(duration: nat, elapsed: nat) -> bool {
    elapsed >= duration
}

/// The time that a timer of the given duration still has to run once `elapsed`
/// units of time have passed since its start.
pub open spec fn time_left(duration: nat, elapsed: nat) -> nat {
    if time_is_up(duration, elapsed) {
        0
    } else {
        (duration - elapsed) as nat
    }
}

/// The number of ticks that are still to come on an ideal clock, one on which
/// every sleep takes exactly one tick interval: the time is looked at only
/// between sleeps. With a tick interval of zero an ideal clock never gets on,
/// and no tick is counted.
pub open spec fn ideal_ticks(duration: nat, tick_duration: nat, elapsed: nat) -> nat
    decreases time_left(duration, elapsed),
{
    if tick_duration > 0 && !time_is_up(duration, elapsed) {
        1 + ideal_ticks(duration, tick_duration, elapsed + tick_duration)
    } else {
        0
    }
}

/// On an ideal clock, a timer whose time has not run out by more than one
/// tick interval ticks once for every interval that has begun.
proof fn lemma_ideal_ticks_from(duration: nat, tick_duration: nat, elapsed: nat)
    requires
        tick_duration > 0,
        elapsed < duration + tick_duration,
    ensures
        ideal_ticks(duration, tick_duration, elapsed) == (duration + tick_duration - 1 - elapsed)
            / (tick_duration as int),
    decreases time_left(duration, elapsed),
{
    let span = duration + tick_duration - 1 - elapsed;
    if time_is_up(duration, elapsed) {
        assert(span / (tick_duration as int) == 0) by (nonlinear_arith)
            requires
                0 <= span < tick_duration,
        ;
    } else {
        lemma_ideal_ticks_from(duration, tick_duration, elapsed + tick_duration);
        lemma_div_plus_one(span - tick_duration, tick_duration as int);
    }
}

/// On an ideal clock, a timer of duration `D` and tick interval `T` ticks
/// `D / T` times, rounded up: `D / T` times or once more, never fewer, and
/// exactly `D / T` times where `T` divides `D`.
pub proof fn lemma_ideal_tick_count(duration: nat, tick_duration: nat)
    requires
        tick_duration > 0,
    ensures
        ideal_ticks(duration, tick_duration, 0) == (duration + tick_duration - 1)
            / (tick_duration as int),
        duration / tick_duration <= ideal_ticks(duration, tick_duration, 0) <= duration
            / tick_duration + 1,
        duration % tick_duration == 0 ==> ideal_ticks(duration, tick_duration, 0) == duration
            / tick_duration,
{
    let d = duration as int;
    let t = tick_duration as int;
    lemma_ideal_ticks_from(duration, tick_duration, 0);
    lemma_div_is_ordered(d, d + t - 1, t);
    lemma_div_is_ordered(d + t - 1, d + t, t);
    lemma_div_plus_one(d, t);
    if duration % tick_duration == 0 {
        assert((d + t - 1) / t == d / t) by (nonlinear_arith)
            requires
                t > 0,
                d >= 0,
                d % t == 0,
        ;
    }
}

/// The timer as the contracts see it.
pub struct TimerView<W> {
    /// The time after which the timer completes.
    pub duration: u64,
    /// The time between two ticks.
    pub tick_duration: u64,
    /// Whether the time is up.
    pub completed: bool,
    /// The wake handle of the latest drive that found the timer running, until
    /// the completion hands it out.
    pub waker: Option<W>,
}

impl<W> TimerView<W> {
    /// The timer after a poll with `waker`, and what the poll reports. A
    /// completed timer reports `Complete` and keeps nothing; a running one
    /// reports `Blocked` and keeps `waker` in place of any earlier handle.
    pub open spec fn poll(self, waker: W) -> (TimerView<W>, Progress) {
        if self.completed {
            (self, Progress::Complete)
        } else {
            (TimerView { waker: Some(waker), ..self }, Progress::Blocked)
        }
    }

    /// The timer after its completion, and the wake handle that the
    /// completion hands out: the one that was kept, if any. The completed
    /// timer keeps none.
    pub open spec fn complete(self) -> (TimerView<W>, Option<W>) {
        (TimerView { completed: true, waker: None, ..self }, self.waker)
    }

    /// What the one who counts the time does once `elapsed` units have
    /// passed.
    pub open spec fn next_step(self, elapsed: u64) -> TimerStep {
        if time_is_up(self.duration as nat, elapsed as nat) {
            TimerStep::Finish
        } else {
            TimerStep::Tick { sleep: self.tick_duration }
        }
    }

    /// A second completion hands out nothing and changes nothing: the wake
    /// handle is used at most once.
    pub proof fn lemma_complete_is_idempotent(self)
        ensures
            self.complete().0.complete() == (self.complete().0, None::<W>),
    {
    }

    /// Of the handles of several polls of a running timer only the latest is
    /// kept, and it is the one that the completion hands out.
    pub proof fn lemma_latest_waker_wins(self, earlier: W, later: W)
        requires
            !self.completed,
        ensures
            self.poll(earlier).0.poll(later) == self.poll(later),
            self.poll(later).0.complete().1 == Some(later),
    {
    }

    /// A completed timer reports `Complete` to every poll and keeps no
    /// handle, so nothing is left to wake.
    pub proof fn lemma_completed_timer_is_ready(self, waker: W)
        ensures
            self.complete().0.poll(waker) == (self.complete().0, Progress::Complete),
            self.complete().0.poll(waker).0.complete().1 is None,
    {
    }
}

/// A computation that completes once a given time has passed.
///
/// The timer keeps no time itself. Somebody else does: that one asks
/// `next_step` what to do, sleeps and ticks as told, and calls `complete` when
/// told to finish. Until then every poll reports `Blocked` and keeps the wake
/// handle it was given.
#[derive(Debug)]
pub struct TimerFuture<W> {
    duration: u64,
    tick_duration: u64,
    completed: bool,
    waker: Option<W>,
}

impl<W> View for TimerFuture<W> {
    type V = TimerView<W>;

    closed spec fn view(&self) -> TimerView<W> {
        TimerView {
            duration: self.duration,
            tick_duration: self.tick_duration,
            completed: self.completed,
            waker: self.waker,
        }
    }
}

impl<W> TimerFuture<W> {
    /// A running timer that completes after `duration` and ticks every
    /// `tick_duration`, both counted in the units of the clock that will time
    /// it.
    pub fn new(duration: u64, tick_duration: u64) -> (timer: TimerFuture<W>)
        ensures
            timer@ == (TimerView::<W> { duration, tick_duration, completed: false, waker: None }),
    {
        TimerFuture { duration, tick_duration, completed: false, waker: None }
    }

    /// Drives the timer once: a completed timer reports `Complete`, a running
    /// one keeps `waker`, in place of any earlier handle, and reports
    /// `Blocked`.
    pub fn poll(&mut self, waker: W) -> (progress: Progress)
        ensures
            (final(self)@, progress) == old(self)@.poll(waker),
    {
        if self.completed {
            Progress::Complete
        } else {
            self.waker = Some(waker);
            Progress::Blocked
        }
    }

    /// Decides what the one who counts the time does, `elapsed` units after
    /// the start: tick once more while the duration has not passed, finish
    /// once it has.
    pub fn next_step(&self, elapsed: u64) -> (step: TimerStep)
        ensures
            step == self@.next_step(elapsed),
    {
        if elapsed < self.duration {
            TimerStep::Tick { sleep: self.tick_duration }
        } else {
            TimerStep::Finish
        }
    }

    /// Marks the timer as completed and hands out the wake handle that was
    /// kept, if any, for the caller to use once. The timer keeps none.
    pub fn complete(&mut self) -> (waker: Option<W>)
        ensures
            (final(self)@, waker) == old(self)@.complete(),
    {
        self.completed = true;
        self.waker.take()
    }

    /// Whether the time is up.
    pub fn is_completed(&self) -> (completed: bool)
        ensures
            completed == self@.completed,
    {
        self.completed
    }

    /// The time after which the timer completes.
    pub fn duration(&self) -> (duration: u64)
        ensures
            duration == self@.duration,
    {
        self.duration
    }

    /// The time between two ticks.
    pub fn tick_duration(&self) -> (tick_duration: u64)
        ensures
            tick_duration == self@.tick_duration,
    {
        self.tick_duration
    }
}

impl Suspendable for TimerFuture<WakeHandle> {
    /// A drive of a timer is a poll.
    open spec fn drives_to(
        self,
        waker: WakeHandle,
        after: TimerFuture<WakeHandle>,
        progress: Progress,
    ) -> bool {
        (after@, progress) == self@.poll(waker)
    }

    fn drive(&mut self, waker: WakeHandle) -> (progress: Progress) {
        self.poll(waker)
    }
}

} // verus!
