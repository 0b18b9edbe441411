//! A staged computation: record a start time, await one delay, record a
//! finish time.
//!
//! This is the shape of work the executor is built to drive — some code before
//! an await point, the await of a delay primitive, some code after — with the
//! side effects modelled as timestamps, so the contract can say that the part
//! after the await runs only once the delay has elapsed.

use crate::delay::TimerFuture;
use crate::future::{Future, Poll};
use crate::hub::{sat_add, TimerHub};
use vstd::prelude::*;

verus! {

/// One unit of work for the executor: starts on its first poll (arming a
/// delay of `duration`), finishes on the poll after the delay's timer fires.
/// `started_at` and `finished_at` are the timestamps of the two stages; the
/// output is the pair of them.
pub struct DelayJob {
    pub duration: u64,
    pub delay: Option<TimerFuture>,
    pub started_at: Option<u64>,
    pub finished_at: Option<u64>,
}

impl DelayJob {
    /// A job that has not yet been started: no delay armed, no stage run.
    pub fn new(duration: u64) -> (j: DelayJob)
        ensures
            j.duration == duration,
            j.delay is None,
            j.started_at is None,
            j.finished_at is None,
            forall|hub: TimerHub, w: usize| j.inv(hub, w),
            forall|t: int| !j.owns(t),
            j.rank() == 1,
    {
        DelayJob { duration, delay: None, started_at: None, finished_at: None }
    }

    /// One poll step of the job.
    ///
    /// The first poll records the start time and arms the delay; it always
    /// reports `Pending`, since a fresh timer — even one of zero duration —
    /// becomes ready only once fired.  A later poll re-polls the delay: still
    /// pending, it re-registers the wake handle; fired, it records the finish
    /// time and reports `Ready` with both timestamps.  The finish time is then
    /// no earlier than `duration` time units past the start time.
    pub fn poll_step(&mut self, hub: &mut TimerHub, waker: usize) -> (r: Poll<(u64, u64)>)
        requires
            old(hub).wf(),
            old(self).inv(*old(hub), waker),
        ensures
            final(hub).wf(),
            final(self).inv(*final(hub), waker),
            final(hub).now == old(hub).now,
            final(self).duration == old(self).duration,
            // the pre-await stage runs exactly once, on the first poll
            old(self).delay is None ==> r is Pending
                && final(self).started_at == Some(old(hub).now)
                && final(hub).timers@.len() == old(hub).timers@.len() + 1,
            old(self).delay is Some ==> final(self).started_at == old(self).started_at
                && final(hub).timers@.len() == old(hub).timers@.len(),
            // the post-await stage runs exactly on the ready poll
            (match r {
                Poll::Ready(out) => final(self).started_at == Some(out.0)
                    && final(self).finished_at == Some(out.1)
                    && out.1 == old(hub).now
                    && out.1 >= sat_add(out.0, old(self).duration)
                    && out.0 <= out.1,
                Poll::Pending => final(self).finished_at == old(self).finished_at
                    && final(hub).live_wake(waker),
            }),
            // frame on the hub, as the scheduler needs it
            forall|t: int| 0 <= t < old(hub).timers@.len()
                ==> (#[trigger] final(hub).timers@[t]).deadline == old(hub).timers@[t].deadline
                    && final(hub).timers@[t].completed == old(hub).timers@[t].completed,
            forall|t: int| 0 <= t < old(hub).timers@.len() && !old(self).owns(t)
                ==> (#[trigger] final(hub).timers@[t]).waker == old(hub).timers@[t].waker,
            forall|t: int| 0 <= t < old(hub).timers@.len() && #[trigger] final(self).owns(t)
                ==> old(self).owns(t),
            forall|t: int| 0 <= t < final(hub).timers@.len()
                ==> (#[trigger] final(hub).timers@[t]).waker is None
                    || final(hub).timers@[t].waker == Some(waker)
                    || (t < old(hub).timers@.len()
                        && final(hub).timers@[t].waker == old(hub).timers@[t].waker),
            r is Pending ==> final(self).rank() + final(hub).timers@.len() - old(hub).timers@.len()
                <= old(self).rank(),
            r is Ready ==> final(hub).timers@.len() - old(hub).timers@.len() <= old(self).rank(),
    {
        match self.delay {
            None => {
                self.started_at = Some(hub.now);
                let mut d = TimerFuture::new(hub, self.duration);
                let r = d.poll_delay(hub, waker);
                self.delay = Some(d);
                match r {
                    Poll::Pending => Poll::Pending,
                    Poll::Ready(_) => {
                        // unreachable: a freshly armed timer has not fired yet
                        let finished = hub.now;
                        self.finished_at = Some(finished);
                        Poll::Ready((self.started_at.unwrap(), finished))
                    },
                }
            },
            Some(mut d) => {
                let r = d.poll_delay(hub, waker);
                self.delay = Some(d);
                match r {
                    Poll::Pending => Poll::Pending,
                    Poll::Ready(_) => {
                        let finished = hub.now;
                        self.finished_at = Some(finished);
                        Poll::Ready((self.started_at.unwrap(), finished))
                    },
                }
            },
        }
    }
}

impl Future for DelayJob {
    type Output = (u64, u64);

    /// The job owns its delay's timer once the delay is armed.
    open spec fn owns(&self, t: int) -> bool {
        match self.delay {
            Some(d) => t == d.timer as int,
            None => false,
        }
    }

    /// Once armed, the delay is valid for the hub, was armed at the recorded
    /// start time, and carries the job's own duration.
    open spec fn inv(&self, hub: TimerHub, waker: usize) -> bool {
        match self.delay {
            Some(d) => d.wf_for(hub, waker) && self.started_at == Some(d.created_at)
                && d.duration == self.duration,
            None => true,
        }
    }

    /// The job arms one timer, on its first poll.
    open spec fn rank(&self) -> nat {
        if self.delay is None {
            1
        } else {
            0
        }
    }

    proof fn inv_structural(&self, hub: TimerHub, waker: usize) {
    }

    proof fn inv_frame(&self, old_hub: TimerHub, new_hub: TimerHub, waker: usize) {
        if let Some(d) = self.delay {
            assert(self.owns(d.timer as int));
        }
    }

    fn poll(&mut self, hub: &mut TimerHub, waker: usize) -> (r: Poll<(u64, u64)>) {
        self.poll_step(hub, waker)
    }
}

} // verus!
