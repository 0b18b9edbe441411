//! The delay primitive: an asynchronous computation that becomes ready only
//! after a fixed duration has elapsed.
//!
//! Constructing one arms a timer in the hub — the model of spawning the
//! background timer thread at that same moment.  Polled before the timer has
//! fired, it records the current wake handle into the shared entry
//! (overwriting any earlier handle) and reports `Pending`; polled after, it
//! reports `Ready` at once, without re-arming anything.

use crate::future::{Future, Poll};
use crate::hub::{sat_add, TimerEntry, TimerHub};
use vstd::prelude::*;

verus! {

/// A delay of `duration` time units, armed at `created_at`; `timer` is its
/// entry in the hub.
#[derive(Clone, Copy)]
pub struct TimerFuture {
    pub timer: usize,
    pub created_at: u64,
    pub duration: u64,
}

impl TimerFuture {
    /// The instant the delay elapses.
    pub open spec fn deadline(self) -> u64 {
        sat_add(self.created_at, self.duration)
    }

    /// The delay's timer entry exists, keeps the delay's own deadline, and its
    /// wake handle is unset or the one the owning task polls with.
    pub open spec fn wf_for(self, hub: TimerHub, waker: usize) -> bool {
        &&& self.timer < hub.timers@.len()
        &&& hub.timers@[self.timer as int].deadline == self.deadline()
        &&& (hub.timers@[self.timer as int].waker is None
            || hub.timers@[self.timer as int].waker == Some(waker))
    }

    /// Constructs a delay of `duration` time units and arms its timer now.
    /// The fresh timer has not completed and carries no wake handle.
    pub fn new(hub: &mut TimerHub, duration: u64) -> (d: TimerFuture)
        requires
            old(hub).wf(),
        ensures
            final(hub).wf(),
            final(hub).now == old(hub).now,
            d.created_at == old(hub).now,
            d.duration == duration,
            d.timer == old(hub).timers@.len(),
            final(hub).timers@ == old(hub).timers@.push(
                (TimerEntry { deadline: d.deadline(), completed: false, waker: None }),
            ),
            forall|w: usize| d.wf_for(*final(hub), w),
    {
        let created_at = hub.now;
        let timer = hub.create(duration);
        TimerFuture { timer, created_at, duration }
    }

    /// One poll step of the delay.
    ///
    /// Ready exactly when the timer has already fired — and then the clock has
    /// passed `created_at + duration`, so the delay never reports ready before
    /// its duration has elapsed.  Pending re-records `waker` into the shared
    /// entry, overwriting (not accumulating) any handle recorded before, so a
    /// live wake-up for the polled task is always registered.
    pub fn poll_delay(&mut self, hub: &mut TimerHub, waker: usize) -> (r: Poll<()>)
        requires
            old(hub).wf(),
            old(self).wf_for(*old(hub), waker),
        ensures
            final(hub).wf(),
            *final(self) == *old(self),
            final(self).wf_for(*final(hub), waker),
            final(hub).now == old(hub).now,
            (match r {
                Poll::Ready(_) => old(hub).timers@[old(self).timer as int].completed
                    && final(hub).timers@ == old(hub).timers@,
                Poll::Pending => !old(hub).timers@[old(self).timer as int].completed
                    && final(hub).timers@ == old(hub).timers@.update(
                    old(self).timer as int,
                    (TimerEntry {
                        deadline: old(self).deadline(),
                        completed: false,
                        waker: Some(waker),
                    }),
                ),
            }),
            r is Ready ==> final(hub).now >= sat_add(old(self).created_at, old(self).duration),
            r is Pending ==> final(hub).live_wake(waker),
    {
        if hub.is_completed(self.timer) {
            Poll::Ready(())
        } else {
            hub.set_waker(self.timer, waker);
            let ghost t = self.timer as int;
            assert(!hub.timers@[t].completed && hub.timers@[t].waker == Some(waker));
            Poll::Pending
        }
    }
}

/// The wall-clock lower bound of the delay primitive: whenever a delay whose
/// deadline fits the clock's range has reported ready — which `poll_delay`
/// ensures happens only with the clock at or past `sat_add(created_at,
/// duration)` — at least `duration` time units have elapsed since it was
/// armed.  (A delay armed so late that `created_at + duration` exceeds the
/// clock's range is pinned to the last representable instant and is exempt.)
pub proof fn lemma_delay_lower_bound(d: TimerFuture, now: u64)
    requires
        d.created_at + d.duration <= u64::MAX,
        now >= sat_add(d.created_at, d.duration),
    ensures
        now - d.created_at >= d.duration,
{
}

impl Future for TimerFuture {
    type Output = ();

    /// A delay owns exactly its own timer entry.
    open spec fn owns(&self, t: int) -> bool {
        t == self.timer as int
    }

    open spec fn inv(&self, hub: TimerHub, waker: usize) -> bool {
        self.wf_for(hub, waker)
    }

    /// A delay creates its one timer at construction, none while polled.
    open spec fn rank(&self) -> nat {
        0
    }

    proof fn inv_structural(&self, hub: TimerHub, waker: usize) {
    }

    proof fn inv_frame(&self, old_hub: TimerHub, new_hub: TimerHub, waker: usize) {
        assert(self.owns(self.timer as int));
    }

    fn poll(&mut self, hub: &mut TimerHub, waker: usize) -> (r: Poll<()>) {
        self.poll_delay(hub, waker)
    }
}

} // verus!
