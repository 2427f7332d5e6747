//! A minimal cooperative task-execution core.
//!
//! Tasks are suspendable computations. The [`Executor`] drives them one at a
//! time, in the order in which they became ready, and a task that reports
//! [`Progress::Blocked`] rests until its [`WakeHandle`] is handed back to
//! [`Executor::wake`]. [`TimerFuture`] is the state that a timer shares with
//! whoever counts its time.
//!
//! Nothing here blocks, sleeps or starts a thread: every function is a step of
//! a state machine, and whoever owns the clock and the threads calls the steps.

pub mod computation;
pub mod executor;
pub mod executor_laws;
pub mod executor_model;
pub mod ready_queue;
pub mod task;
pub mod timer_future;

pub use computation::{Progress, Suspendable, WakeHandle};
pub use executor::{Executor, Turn, WakeError, MAX_QUEUED_TASKS};
pub use executor_model::{ExecutorView, TaskLedger};
pub use ready_queue::{QueueFull, ReadyQueue};
pub use task::{Task, TaskView};
pub use timer_future::{TimerFuture, TimerStep, TimerView};
