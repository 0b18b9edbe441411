//! The asynchronous-computation abstraction: a unit of work that can report
//! "not yet complete" and be resumed later without losing internal progress.
//!
//! A computation is advanced one suspension step at a time through
//! [`Future::poll`].  The contract is the heart of the scheduler's safety
//! argument: a computation that returns [`Poll::Pending`] must first have
//! registered the wake handle it was polled with on some not-yet-fired timer,
//! so the wake-up it is owed can never be lost; and it may touch the wake
//! handles only of timers it owns, so it can never steal another task's
//! wake-up either.

use crate::hub::TimerHub;
use vstd::prelude::*;

verus! {

/// The result of advancing a computation by one step: a final value, or "not
/// ready yet, wake me later".
pub enum Poll<T> {
    Ready(T),
    Pending,
}

/// An asynchronous computation, pollable against the timer hub.
///
/// The three spec members tie an implementation to the scheduler:
/// - `owns` names the hub timers whose wake handles the computation may
///   rewrite; the executor keeps the owned sets of live tasks disjoint.
/// - `inv` is the computation's validity against the current hub state under
///   the wake handle it is polled with; the two proof obligations
///   [`Future::inv_structural`] and [`Future::inv_frame`] make it usable by
///   the executor: owned timers are in range and carry only that same
///   handle, and the invariant survives everything other tasks and the timer
///   threads do.
/// - `rank` bounds how many further timers the computation may still create;
///   it pays for the executor's termination measure.
pub trait Future: Sized {
    type Output;

    /// The hub timers whose wake handles this computation may rewrite.
    spec fn owns(&self, t: int) -> bool;

    /// Validity of the computation against hub state `hub`, when polled with
    /// wake handle `waker`.
    spec fn inv(&self, hub: TimerHub, waker: usize) -> bool;

    /// How many further timers this computation may still create.
    spec fn rank(&self) -> nat;

    /// The invariant keeps owned timers in range, and their wake handles are
    /// either unset or the polling task's own.
    proof fn inv_structural(&self, hub: TimerHub, waker: usize)
        requires
            self.inv(hub, waker),
        ensures
            forall|t: int| #[trigger] self.owns(t) ==> 0 <= t < hub.timers@.len(),
            forall|t: int| #[trigger] self.owns(t)
                ==> hub.timers@[t].waker is None || hub.timers@[t].waker == Some(waker),
    ;

    /// The invariant survives what the rest of the system does between two
    /// polls of this computation: the clock moves forward, timers are
    /// appended, deadlines stay fixed, completion flags may flip, and an owned
    /// timer's wake handle is at most taken out by its firing — never
    /// rewritten by anyone else.
    proof fn inv_frame(&self, old_hub: TimerHub, new_hub: TimerHub, waker: usize)
        requires
            self.inv(old_hub, waker),
            new_hub.now >= old_hub.now,
            new_hub.timers@.len() >= old_hub.timers@.len(),
            forall|t: int| 0 <= t < old_hub.timers@.len()
                ==> (#[trigger] new_hub.timers@[t]).deadline == old_hub.timers@[t].deadline,
            forall|t: int| #[trigger] self.owns(t)
                ==> new_hub.timers@[t].waker == old_hub.timers@[t].waker
                    || new_hub.timers@[t].waker is None,
        ensures
            self.inv(new_hub, waker),
    ;

    /// Advances the computation by exactly one suspension boundary.
    ///
    /// Whatever the outcome, the computation leaves the clock, every deadline
    /// and every completion flag alone, touches no wake handle outside the
    /// timers it owned, and gives up — never takes — ownership of
    /// pre-existing timers.  If it returns `Pending`, it has registered
    /// `waker` on some not-yet-fired timer, so the task will be woken; and its
    /// remaining rank plus the timers just created fit in the old rank, so the
    /// scheduler's measure shrinks.
    fn poll(&mut self, hub: &mut TimerHub, waker: usize) -> (r: Poll<Self::Output>)
        requires
            old(hub).wf(),
            old(self).inv(*old(hub), waker),
        ensures
            final(hub).wf(),
            final(self).inv(*final(hub), waker),
            final(hub).now == old(hub).now,
            final(hub).timers@.len() >= old(hub).timers@.len(),
            forall|t: int| 0 <= t < old(hub).timers@.len()
                ==> (#[trigger] final(hub).timers@[t]).deadline == old(hub).timers@[t].deadline
                    && final(hub).timers@[t].completed == old(hub).timers@[t].completed,
            forall|t: int| 0 <= t < old(hub).timers@.len() && !old(self).owns(t)
                ==> (#[trigger] final(hub).timers@[t]).waker == old(hub).timers@[t].waker,
            forall|t: int| 0 <= t < old(hub).timers@.len() && #[trigger] final(self).owns(t)
                ==> old(self).owns(t),
            forall|t: int| 0 <= t < final(hub).timers@.len()
                ==> (#[trigger] final(hub).timers@[t]).waker is None
                    || final(hub).timers@[t].waker == Some(waker)
                    || (t < old(hub).timers@.len()
                        && final(hub).timers@[t].waker == old(hub).timers@[t].waker),
            r is Pending ==> final(hub).live_wake(waker),
            r is Pending ==> final(self).rank() + final(hub).timers@.len() - old(hub).timers@.len()
                <= old(self).rank(),
            r is Ready ==> final(hub).timers@.len() - old(hub).timers@.len() <= old(self).rank(),
    ;
}

} // verus!
