//! The background timing mechanism.
//!
//! Every delay primitive owns one entry here: a deadline, a completion flag,
//! and an optionally registered wake handle (the id of the task to push back
//! onto the ready queue).  The hub also owns the clock, a `u64` number of time
//! units that only ever grows.  Firing an entry — what the background timer
//! thread does when the duration has elapsed — sets the completion flag and
//! takes the wake handle out, so the handle is invoked exactly once.

use vstd::prelude::*;

verus! {

/// Deadline arithmetic: a deadline past the end of the clock's range is
/// pinned to the last representable instant.
pub open spec fn sat_add(a: u64, b: u64) -> u64 {
    if a + b <= u64::MAX {
        (a + b) as u64
    } else {
        u64::MAX
    }
}

/// The state one delay primitive shares with its background timer: the instant
/// the timer elapses, whether it has already fired, and the wake handle to
/// invoke when it does.
pub struct TimerEntry {
    pub deadline: u64,
    pub completed: bool,
    pub waker: Option<usize>,
}

/// Owns the clock and the shared state of every outstanding timer.
pub struct TimerHub {
    pub now: u64,
    pub timers: Vec<TimerEntry>,
}

impl TimerHub {
    pub open spec fn num(self) -> int {
        self.timers@.len() as int
    }

    pub open spec fn valid(self, t: int) -> bool {
        0 <= t < self.timers@.len()
    }

    pub open spec fn deadline_of(self, t: int) -> u64 {
        self.timers@[t].deadline
    }

    pub open spec fn completed_of(self, t: int) -> bool {
        self.timers@[t].completed
    }

    pub open spec fn waker_of(self, t: int) -> Option<usize> {
        self.timers@[t].waker
    }

    /// A timer completes only once its deadline has passed on the hub's own
    /// clock: a delay can never report ready early.
    pub open spec fn wf(self) -> bool {
        forall|t: int|
            0 <= t < self.timers@.len() && (#[trigger] self.timers@[t]).completed
                ==> self.timers@[t].deadline <= self.now
    }

    /// Some timer that has not yet fired holds `w` as its wake handle, so the
    /// task `w` is still owed a wake-up.
    pub open spec fn live_wake(self, w: usize) -> bool {
        exists|t: int|
            0 <= t < self.timers@.len() && !(#[trigger] self.timers@[t]).completed
                && self.timers@[t].waker == Some(w)
    }

    pub fn new() -> (h: TimerHub)
        ensures
            h.now == 0,
            h.num() == 0,
            h.wf(),
    {
        TimerHub { now: 0, timers: Vec::new() }
    }

    /// Arms a new timer that elapses `duration` time units from now; models
    /// spawning the background timer thread at the delay's construction.  The
    /// fresh entry has not completed and carries no wake handle yet.
    pub fn create(&mut self, duration: u64) -> (t: usize)
        requires
            old(self).wf(),
        ensures
            final(self).wf(),
            final(self).now == old(self).now,
            t as int == old(self).num(),
            final(self).timers@ == old(self).timers@.push(
                (TimerEntry { deadline: sat_add(old(self).now, duration), completed: false, waker: None }),
            ),
    {
        let deadline: u64 = if duration <= u64::MAX - self.now {
            self.now + duration
        } else {
            u64::MAX
        };
        let t = self.timers.len();
        self.timers.push(TimerEntry { deadline, completed: false, waker: None });
        t
    }

    /// Records `w` as the entry's wake handle, overwriting — not accumulating —
    /// any handle recorded before.
    pub fn set_waker(&mut self, t: usize, w: usize)
        requires
            old(self).wf(),
            old(self).valid(t as int),
        ensures
            final(self).wf(),
            final(self).now == old(self).now,
            final(self).timers@ == old(self).timers@.update(
                t as int,
                (TimerEntry {
                    deadline: old(self).deadline_of(t as int),
                    completed: old(self).completed_of(t as int),
                    waker: Some(w),
                }),
            ),
    {
        let deadline = self.timers[t].deadline;
        let completed = self.timers[t].completed;
        self.timers.set(t, TimerEntry { deadline, completed, waker: Some(w) });
    }

    pub fn is_completed(&self, t: usize) -> (r: bool)
        requires
            self.valid(t as int),
        ensures
            r == self.completed_of(t as int),
    {
        self.timers[t].completed
    }

    pub fn deadline(&self, t: usize) -> (r: u64)
        requires
            self.valid(t as int),
        ensures
            r == self.deadline_of(t as int),
    {
        self.timers[t].deadline
    }

    /// Moves the clock forward.  Time never runs backwards, so a completed
    /// timer's deadline stays in the past.
    pub fn advance_to(&mut self, now: u64)
        requires
            old(self).wf(),
            now >= old(self).now,
        ensures
            final(self).wf(),
            final(self).now == now,
            final(self).timers@ == old(self).timers@,
    {
        self.now = now;
    }

    /// The timer elapses: the completion flag is set and the wake handle, if
    /// one was recorded, is taken out to be invoked — exactly once, since the
    /// entry now holds none and can never fire again.
    pub fn fire(&mut self, t: usize) -> (w: Option<usize>)
        requires
            old(self).wf(),
            old(self).valid(t as int),
            !old(self).completed_of(t as int),
            old(self).deadline_of(t as int) <= old(self).now,
        ensures
            final(self).wf(),
            final(self).now == old(self).now,
            w == old(self).waker_of(t as int),
            final(self).timers@ == old(self).timers@.update(
                t as int,
                (TimerEntry {
                    deadline: old(self).deadline_of(t as int),
                    completed: true,
                    waker: None,
                }),
            ),
    {
        let deadline = self.timers[t].deadline;
        let w = self.timers[t].waker;
        self.timers.set(t, TimerEntry { deadline, completed: true, waker: None });
        w
    }

    /// The not-yet-completed timer with the smallest deadline, if any: the one
    /// whose background thread would be the next to fire.
    pub fn earliest_pending(&self) -> (r: Option<usize>)
        ensures
            match r {
                Some(t) => self.valid(t as int) && !self.completed_of(t as int)
                    && forall|u: int|
                        0 <= u < self.timers@.len() && !(#[trigger] self.timers@[u]).completed
                            ==> self.deadline_of(t as int) <= self.timers@[u].deadline,
                None => forall|u: int|
                    0 <= u < self.timers@.len() ==> (#[trigger] self.timers@[u]).completed,
            },
    {
        let mut best: Option<usize> = None;
        let mut i: usize = 0;
        while i < self.timers.len()
            invariant
                i <= self.timers@.len(),
                match best {
                    Some(t) => self.valid(t as int) && !self.completed_of(t as int)
                        && forall|u: int|
                            0 <= u < i && !(#[trigger] self.timers@[u]).completed
                                ==> self.deadline_of(t as int) <= self.timers@[u].deadline,
                    None => forall|u: int| 0 <= u < i ==> (#[trigger] self.timers@[u]).completed,
                },
            decreases self.timers@.len() - i,
        {
            if !self.timers[i].completed {
                match best {
                    Some(t) => {
                        if self.timers[i].deadline < self.timers[t].deadline {
                            best = Some(i);
                        }
                    },
                    None => {
                        best = Some(i);
                    },
                }
            }
            i = i + 1;
        }
        best
    }
}

/// The number of timers that have not yet completed; the part of the
/// executor's termination measure that firing a timer pays down.
pub open spec fn count_pending(s: Seq<TimerEntry>) -> nat
    decreases s.len(),
{
    if s.len() == 0 {
        0
    } else {
        count_pending(s.drop_last()) + (if s.last().completed {
            0nat
        } else {
            1nat
        })
    }
}

/// Appending timers and leaving the old completion flags alone grows the
/// pending count by at most the number appended.
pub proof fn lemma_count_pending_le(s1: Seq<TimerEntry>, s2: Seq<TimerEntry>)
    requires
        s1.len() <= s2.len(),
        forall|t: int| 0 <= t < s1.len() ==> (#[trigger] s2[t]).completed == s1[t].completed,
    ensures
        count_pending(s2) <= count_pending(s1) + (s2.len() - s1.len()),
    decreases s2.len(),
{
    if s2.len() == 0 {
    } else if s1.len() == s2.len() {
        lemma_count_pending_le(s1.drop_last(), s2.drop_last());
        assert(s2.last().completed == s1.last().completed);
    } else {
        lemma_count_pending_le(s1, s2.drop_last());
    }
}

pub proof fn lemma_count_pending_update(s: Seq<TimerEntry>, i: int, e: TimerEntry)
    requires
        0 <= i < s.len(),
    ensures
        count_pending(s.update(i, e)) + (if s[i].completed {
            0nat
        } else {
            1nat
        }) == count_pending(s) + (if e.completed {
            0nat
        } else {
            1nat
        }),
    decreases s.len(),
{
    if i == s.len() - 1 {
        assert(s.update(i, e).drop_last() =~= s.drop_last());
        assert(s.update(i, e).last() == e);
    } else {
        assert(s.update(i, e).drop_last() =~= s.drop_last().update(i, e));
        assert(s.update(i, e).last() == s.last());
        lemma_count_pending_update(s.drop_last(), i, e);
    }
}

} // verus!
