//! A minimal single-threaded cooperative task executor.
//!
//! The crate models the wake-driven scheduling discipline: a spawned
//! computation is wrapped in a task, pushed onto a bounded ready queue, and
//! driven one suspension step at a time by the executor.  A computation that
//! is not yet done reports `Pending` after registering a wake handle with a
//! timer; when the timer elapses, the handle is invoked, which pushes the task
//! back onto the queue, and the executor resumes it exactly where it left off.
//!
//! Time is an explicit `u64` clock owned by the [`hub::TimerHub`]; a driver
//! (the executor's own `run`, or an outer loop that sleeps on a real clock)
//! advances it and fires elapsed timers.

pub mod delay;
pub mod executor;
pub mod future;
pub mod hub;
pub mod job;
pub mod queue;
