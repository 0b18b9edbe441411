//! The executor: owns the ready queue, the tasks, and the timer hub, and
//! drives every spawned computation to completion.
//!
//! `spawn` wraps a computation in a task and enqueues it; `wake_by_ref` is the
//! wake contract, pushing a task id back onto the queue from wherever a timer
//! fired; `poll_task` drives one task one suspension step; `run` loops —
//! strictly FIFO — until the queue is empty and no timer is still pending, at
//! which point every spawned task has completed.  The safety argument rests on
//! one invariant: an unfinished task is always either in the ready queue or
//! registered on a not-yet-fired timer, so no wake-up is ever lost.

use crate::future::{Future, Poll};
use crate::hub::{count_pending, lemma_count_pending_update, TimerHub};
use crate::queue::{QueueOverflow, ReadyQueue};
use vstd::prelude::*;

verus! {

/// One scheduled computation.  The slot holds the computation until it
/// reports ready; it is then emptied permanently — a task with an empty slot
/// is finished and is never re-invoked — and the final value is kept in
/// `output`.
pub struct Task<C: Future> {
    pub slot: Option<C>,
    pub output: Option<C::Output>,
}

/// The timers whose wake handles the task's computation may rewrite.
pub open spec fn t_owns<C: Future>(task: Task<C>, t: int) -> bool {
    match task.slot {
        Some(c) => c.owns(t),
        None => false,
    }
}

/// The task's computation, if any, is valid for hub state `hub` under its own
/// task id as wake handle.
pub open spec fn t_inv<C: Future>(task: Task<C>, hub: TimerHub, id: usize) -> bool {
    match task.slot {
        Some(c) => c.inv(hub, id),
        None => true,
    }
}

/// The task's share of the executor's termination measure.
pub open spec fn t_measure<C: Future>(task: Task<C>) -> nat {
    match task.slot {
        Some(c) => 2 * c.rank() + 1,
        None => 0,
    }
}

pub open spec fn sum_measure<C: Future>(s: Seq<Task<C>>) -> nat
    decreases s.len(),
{
    if s.len() == 0 {
        0
    } else {
        sum_measure(s.drop_last()) + t_measure(s.last())
    }
}

pub proof fn lemma_sum_measure_update<C: Future>(s: Seq<Task<C>>, i: int, task: Task<C>)
    requires
        0 <= i < s.len(),
    ensures
        sum_measure(s.update(i, task)) + t_measure(s[i]) == sum_measure(s) + t_measure(task),
    decreases s.len(),
{
    if i == s.len() - 1 {
        assert(s.update(i, task).drop_last() =~= s.drop_last());
        assert(s.update(i, task).last() == task);
    } else {
        assert(s.update(i, task).drop_last() =~= s.drop_last().update(i, task));
        assert(s.update(i, task).last() == s.last());
        lemma_sum_measure_update(s.drop_last(), i, task);
    }
}

/// The scheduler: ready queue, task table, and the timing mechanism.
pub struct Executor<C: Future> {
    pub queue: ReadyQueue,
    pub tasks: Vec<Task<C>>,
    pub hub: TimerHub,
}

impl<C: Future> Executor<C> {
    /// Everything structural the scheduler relies on: the queue is in bounds
    /// and holds valid task ids, every registered wake handle names a valid
    /// task, every live computation satisfies its own invariant, and no two
    /// live computations own the same timer.
    pub open spec fn wf(self) -> bool {
        &&& self.hub.wf()
        &&& self.queue.wf()
        &&& self.queue.capacity >= 1
        &&& forall|k: int| 0 <= k < self.queue.items@.len()
            ==> (#[trigger] self.queue.items@[k]) < self.tasks@.len()
        &&& forall|t: int| 0 <= t < self.hub.timers@.len()
            && (#[trigger] self.hub.timers@[t]).waker is Some
            ==> (self.hub.timers@[t].waker matches Some(w) && (w as int) < self.tasks@.len())
        &&& forall|i: usize| i < self.tasks@.len()
            ==> t_inv(#[trigger] self.tasks@[i as int], self.hub, i)
        &&& forall|i: usize, j: usize, t: int|
            i < self.tasks@.len() && j < self.tasks@.len() && i != j
                ==> !(#[trigger] t_owns(self.tasks@[i as int], t) && #[trigger] t_owns(
                    self.tasks@[j as int],
                    t,
                ))
    }

    /// No wake-up is ever lost: an unfinished task is in the ready queue, or a
    /// not-yet-fired timer holds its wake handle.
    pub open spec fn covered(self) -> bool {
        forall|i: usize|
            i < self.tasks@.len() && (#[trigger] self.tasks@[i as int]).slot is Some
                ==> self.queue.items@.contains(i) || self.hub.live_wake(i)
    }

    /// The termination measure of `run`: each loop iteration pops an entry,
    /// finishes a computation, or fires a timer, and each of those pays.
    pub open spec fn measure(self) -> int {
        self.queue.items@.len() + 2 * count_pending(self.hub.timers@) + sum_measure(self.tasks@)
            as int
    }

    /// A fresh scheduler with a ready queue of the given capacity.  The
    /// capacity is configuration: it must admit at least one task.
    pub fn new(capacity: usize) -> (e: Executor<C>)
        requires
            capacity >= 1,
        ensures
            e.wf(),
            e.covered(),
            e.queue.capacity == capacity,
            e.queue.items@.len() == 0,
            e.tasks@.len() == 0,
            e.hub.now == 0,
            e.hub.timers@.len() == 0,
    {
        Executor { queue: ReadyQueue::new(capacity), tasks: Vec::new(), hub: TimerHub::new() }
    }

    /// Submits a new computation: wraps it in a task and pushes the task onto
    /// the ready queue.  Succeeds exactly when the queue is below capacity;
    /// on overflow — the fatal condition — the scheduler is left unchanged.
    /// The computation must be fresh: valid for the id it will get, owning no
    /// timer yet.
    pub fn spawn(&mut self, c: C) -> (r: Result<usize, QueueOverflow>)
        requires
            old(self).wf(),
            c.inv(old(self).hub, old(self).tasks@.len() as usize),
            forall|t: int| !c.owns(t),
        ensures
            final(self).wf(),
            final(self).hub == old(self).hub,
            final(self).queue.capacity == old(self).queue.capacity,
            r matches Ok(id) <==> old(self).queue.items@.len() < old(self).queue.capacity,
            (match r {
                Ok(id) => id == old(self).tasks@.len()
                    && final(self).tasks@ == old(self).tasks@.push(
                    (Task { slot: Some(c), output: None }),
                ) && final(self).queue.items@ == old(self).queue.items@.push(id),
                Err(_) => final(self).tasks@ == old(self).tasks@
                    && final(self).queue.items@ == old(self).queue.items@,
            }),
            old(self).covered() ==> final(self).covered(),
    {
        let id = self.tasks.len();
        match self.queue.push(id) {
            Ok(()) => {
                self.tasks.push(Task { slot: Some(c), output: None });
                proof {
                    assert forall|i: usize|
                        i < self.tasks@.len() implies t_inv(
                        #[trigger] self.tasks@[i as int],
                        self.hub,
                        i,
                    ) by {
                        if (i as int) < self.tasks@.len() - 1 {
                            assert(self.tasks@[i as int] == old(self).tasks@[i as int]);
                        }
                    }
                    assert forall|i: usize|
                        i < self.tasks@.len() && (#[trigger] self.tasks@[i as int]).slot is Some
                            && old(self).covered() implies self.queue.items@.contains(i)
                        || self.hub.live_wake(i) by {
                        if (i as int) < self.tasks@.len() - 1 {
                            assert(self.tasks@[i as int] == old(self).tasks@[i as int]);
                            if old(self).queue.items@.contains(i) {
                                let k = choose|k: int|
                                    0 <= k < old(self).queue.items@.len()
                                        && old(self).queue.items@[k] == i;
                                assert(self.queue.items@[k] == i);
                            }
                        } else {
                            assert(self.queue.items@[self.queue.items@.len() - 1] == id);
                        }
                    }
                }
                Ok(id)
            },
            Err(e) => Err(e),
        }
    }

    /// The wake contract: pushes a new reference to the task — its id — onto
    /// the ready queue.  Safe to invoke at any time; waking a task that is
    /// already enqueued simply adds a redundant entry, which a later poll
    /// resolves harmlessly.  Fails only on queue overflow, leaving the
    /// scheduler unchanged.
    pub fn wake_by_ref(&mut self, task: usize) -> (r: Result<(), QueueOverflow>)
        requires
            old(self).wf(),
            (task as int) < old(self).tasks@.len(),
        ensures
            final(self).wf(),
            final(self).hub == old(self).hub,
            final(self).tasks@ == old(self).tasks@,
            final(self).queue.capacity == old(self).queue.capacity,
            r matches Ok(()) <==> old(self).queue.items@.len() < old(self).queue.capacity,
            (match r {
                Ok(()) => final(self).queue.items@ == old(self).queue.items@.push(task),
                Err(_) => final(self).queue.items@ == old(self).queue.items@,
            }),
            old(self).covered() ==> final(self).covered(),
    {
        let r = self.queue.push(task);
        proof {
            if old(self).covered() && r is Ok {
                assert forall|i: usize|
                    i < self.tasks@.len() && (#[trigger] self.tasks@[i as int]).slot is Some implies self
                        .queue
                        .items@
                        .contains(i) || self.hub.live_wake(i) by {
                    if old(self).queue.items@.contains(i) {
                        let k = choose|k: int|
                            0 <= k < old(self).queue.items@.len() && old(self).queue.items@[k] == i;
                        assert(self.queue.items@[k] == i);
                    }
                }
            }
        }
        r
    }

    /// Drives one task one suspension step: if its slot holds a computation,
    /// polls it with the task's own id as wake handle; on `Pending` the
    /// computation goes back into the slot unmodified in its role, on `Ready`
    /// the slot is emptied permanently and the output kept.  Re-polling a
    /// finished task — one whose slot is already empty — is a no-op: the
    /// computation is not re-invoked and nothing is pushed onto the queue.
    /// `poll_task` never touches the queue at all, leaves every other task
    /// alone, and keeps every other task's registered wake-up alive.
    pub fn poll_task(&mut self, task: usize)
        requires
            old(self).wf(),
            (task as int) < old(self).tasks@.len(),
        ensures
            final(self).wf(),
            final(self).queue == old(self).queue,
            final(self).tasks@.len() == old(self).tasks@.len(),
            final(self).hub.now == old(self).hub.now,
            old(self).tasks@[task as int].slot is None ==> final(self).tasks@ == old(self).tasks@
                && final(self).hub == old(self).hub,
            forall|j: int| 0 <= j < old(self).tasks@.len() && j != task as int
                ==> final(self).tasks@[j] == old(self).tasks@[j],
            final(self).tasks@[task as int].slot is Some ==> old(self).tasks@[task as int].slot
                is Some && final(self).hub.live_wake(task),
            old(self).tasks@[task as int].slot is None ==> final(self).tasks@[task as int].slot
                is None,
            forall|w: usize| old(self).hub.live_wake(w) && w != task ==> final(self).hub.live_wake(
                w,
            ),
            old(self).tasks@[task as int].slot is Some && final(self).tasks@[task as int].slot
                is None ==> final(self).tasks@[task as int].output is Some,
            2 * count_pending(final(self).hub.timers@) + sum_measure(final(self).tasks@) <= 2
                * count_pending(old(self).hub.timers@) + sum_measure(old(self).tasks@),
    {
        let ghost pre = *old(self);
        let ghost tix = task as int;
        let mut entry = self.tasks.remove(task);
        match entry.slot {
            None => {
                self.tasks.insert(task, entry);
                proof {
                    assert(self.tasks@ =~= pre.tasks@);
                }
            },
            Some(mut c) => {
                let ghost c0 = c;
                let ghost h0 = self.hub;
                proof {
                    assert(t_inv(pre.tasks@[tix], h0, task));
                    c0.inv_structural(h0, task);
                }
                let r = c.poll(&mut self.hub, task);
                let ghost c1 = c;
                let ghost h1 = self.hub;
                match r {
                    Poll::Pending => {
                        entry.slot = Some(c);
                    },
                    Poll::Ready(out) => {
                        entry.slot = None;
                        entry.output = Some(out);
                    },
                }
                let ghost entry1 = entry;
                self.tasks.insert(task, entry);
                proof {
                    assert(self.tasks@ =~= pre.tasks@.update(tix, entry1));
                    // every computation is still valid for the new hub state
                    assert forall|i: usize|
                        i < self.tasks@.len() implies t_inv(
                        #[trigger] self.tasks@[i as int],
                        self.hub,
                        i,
                    ) by {
                        if i as int != tix {
                            assert(t_inv(pre.tasks@[i as int], h0, i));
                            match pre.tasks@[i as int].slot {
                                Some(cj) => {
                                    cj.inv_structural(h0, i);
                                    assert forall|t: int| #[trigger]
                                        cj.owns(t) implies h1.timers@[t].waker
                                        == h0.timers@[t].waker by {
                                        assert(t_owns(pre.tasks@[i as int], t));
                                        assert(!(t_owns(pre.tasks@[i as int], t) && t_owns(
                                            pre.tasks@[tix],
                                            t,
                                        )));
                                        assert(!c0.owns(t));
                                    }
                                    cj.inv_frame(h0, h1, i);
                                },
                                None => {},
                            }
                        }
                    }
                    // no two live computations own the same timer
                    assert forall|i: usize, j: usize, t: int|
                        i < self.tasks@.len() && j < self.tasks@.len() && i != j implies !(
                    #[trigger] t_owns(self.tasks@[i as int], t) && #[trigger] t_owns(
                        self.tasks@[j as int],
                        t,
                    )) by {
                        if t_owns(self.tasks@[i as int], t) && t_owns(self.tasks@[j as int], t) {
                            if i as int == tix || j as int == tix {
                                let o = if i as int == tix {
                                    j
                                } else {
                                    i
                                };
                                let cj = pre.tasks@[o as int].slot.unwrap();
                                assert(t_owns(pre.tasks@[o as int], t));
                                assert(t_inv(pre.tasks@[o as int], h0, o));
                                cj.inv_structural(h0, o);
                                assert(0 <= t < h0.timers@.len());
                                assert(c1.owns(t));
                                assert(c0.owns(t));
                                assert(t_owns(pre.tasks@[tix], t));
                                assert(!(t_owns(pre.tasks@[o as int], t) && t_owns(
                                    pre.tasks@[tix],
                                    t,
                                )));
                            } else {
                                assert(t_owns(pre.tasks@[i as int], t) && t_owns(
                                    pre.tasks@[j as int],
                                    t,
                                ));
                            }
                        }
                    }
                    // every registered wake handle still names a valid task
                    assert forall|t: int|
                        0 <= t < self.hub.timers@.len() && (#[trigger] self.hub.timers@[t]).waker
                            is Some implies (self.hub.timers@[t].waker matches Some(w) && (w as int)
                        < self.tasks@.len()) by {
                        if t < h0.timers@.len() && h1.timers@[t].waker == h0.timers@[t].waker {
                            assert(t < pre.hub.timers@.len());
                        }
                    }
                    // no other task's live wake-up is lost
                    assert forall|w: usize|
                        pre.hub.live_wake(w) && w != task implies self.hub.live_wake(w) by {
                        let t = choose|t: int|
                            0 <= t < h0.timers@.len() && !(#[trigger] h0.timers@[t]).completed
                                && h0.timers@[t].waker == Some(w);
                        assert(!c0.owns(t));
                        assert(!h1.timers@[t].completed && h1.timers@[t].waker == Some(w));
                    }
                    // the measure never grows
                    crate::hub::lemma_count_pending_le(h0.timers@, h1.timers@);
                    lemma_sum_measure_update(pre.tasks@, tix, entry1);
                }
            },
        }
    }

    /// What the timing mechanism does on its own — advancing the clock,
    /// firing a timer (completing it and taking its wake handle out) — keeps
    /// every task's computation valid.
    proof fn lemma_tasks_frame(tasks: Seq<Task<C>>, h0: TimerHub, h1: TimerHub)
        requires
            forall|i: usize| i < tasks.len() ==> t_inv(#[trigger] tasks[i as int], h0, i),
            h1.now >= h0.now,
            h1.timers@.len() >= h0.timers@.len(),
            forall|t: int| 0 <= t < h0.timers@.len()
                ==> (#[trigger] h1.timers@[t]).deadline == h0.timers@[t].deadline,
            forall|t: int| 0 <= t < h0.timers@.len()
                ==> (#[trigger] h1.timers@[t]).waker == h0.timers@[t].waker
                    || h1.timers@[t].waker is None,
        ensures
            forall|i: usize| i < tasks.len() ==> t_inv(#[trigger] tasks[i as int], h1, i),
    {
        assert forall|i: usize|
            i < tasks.len() implies t_inv(#[trigger] tasks[i as int], h1, i) by {
            match tasks[i as int].slot {
                Some(cj) => {
                    assert(t_inv(tasks[i as int], h0, i));
                    cj.inv_structural(h0, i);
                    cj.inv_frame(h0, h1, i);
                },
                None => {},
            }
        }
    }

    /// Runs the scheduler to completion: repeatedly pops the next ready task
    /// — strictly FIFO — and drives it one step; when the queue is empty but
    /// timers are still outstanding, waits for the earliest one (advancing the
    /// clock to its deadline) and lets it fire and wake its task.  Returns
    /// only when the queue is empty and no timer is pending any more — and
    /// then every spawned task has completed: no wake-up was lost.
    pub fn run(&mut self)
        requires
            old(self).wf(),
            old(self).covered(),
        ensures
            final(self).wf(),
            final(self).tasks@.len() == old(self).tasks@.len(),
            final(self).queue.items@.len() == 0,
            final(self).hub.now >= old(self).hub.now,
            forall|i: usize| i < final(self).tasks@.len()
                ==> (#[trigger] final(self).tasks@[i as int]).slot is None,
            forall|i: usize| i < final(self).tasks@.len() && old(self).tasks@[i as int].slot
                is Some ==> (#[trigger] final(self).tasks@[i as int]).output is Some,
    {
        let ghost pre = *self;
        loop
            invariant
                self.wf(),
                self.covered(),
                self.tasks@.len() == pre.tasks@.len(),
                self.hub.now >= pre.hub.now,
                forall|i: usize| i < self.tasks@.len() && pre.tasks@[i as int].slot is Some
                    && (#[trigger] self.tasks@[i as int]).slot is None
                    ==> self.tasks@[i as int].output is Some,
            ensures
                self.wf(),
                self.covered(),
                self.tasks@.len() == pre.tasks@.len(),
                self.hub.now >= pre.hub.now,
                forall|i: usize| i < self.tasks@.len() && pre.tasks@[i as int].slot is Some
                    && (#[trigger] self.tasks@[i as int]).slot is None
                    ==> self.tasks@[i as int].output is Some,
                self.queue.items@.len() == 0,
                forall|t: int| 0 <= t < self.hub.timers@.len()
                    ==> (#[trigger] self.hub.timers@[t]).completed,
            decreases self.measure(),
        {
            let ghost it0 = *self;
            match self.queue.pop() {
                Some(id) => {
                    proof {
                        assert(it0.queue.items@[0] == id);
                        assert((id as int) < self.tasks@.len());
                        assert forall|k: int|
                            0 <= k < self.queue.items@.len() implies (
                        #[trigger] self.queue.items@[k]) < self.tasks@.len() by {
                            assert(self.queue.items@[k] == it0.queue.items@[k + 1]);
                        }
                    }
                    let ghost mid = *self;
                    self.poll_task(id);
                    proof {
                        assert forall|i: usize|
                            i < self.tasks@.len() && (#[trigger] self.tasks@[i as int]).slot
                                is Some implies self.queue.items@.contains(i)
                            || self.hub.live_wake(i) by {
                            if i == id {
                                assert(self.hub.live_wake(id));
                            } else {
                                assert(self.tasks@[i as int] == it0.tasks@[i as int]);
                                if it0.queue.items@.contains(i) {
                                    let k = choose|k: int|
                                        0 <= k < it0.queue.items@.len() && it0.queue.items@[k] == i;
                                    assert(k != 0);
                                    assert(mid.queue.items@[k - 1] == i);
                                    assert(self.queue.items@.contains(i));
                                } else {
                                    assert(it0.hub.live_wake(i));
                                    assert(self.hub.live_wake(i));
                                }
                            }
                        }
                        assert(self.measure() < it0.measure());
                    }
                },
                None => {
                    match self.hub.earliest_pending() {
                        Some(t) => {
                            let ghost h0 = self.hub;
                            let dl = self.hub.deadline(t);
                            if dl > self.hub.now {
                                self.hub.advance_to(dl);
                            }
                            let w = self.hub.fire(t);
                            let ghost h1 = self.hub;
                            proof {
                                Self::lemma_tasks_frame(self.tasks@, h0, h1);
                                crate::hub::lemma_count_pending_update(
                                    h0.timers@,
                                    t as int,
                                    h1.timers@[t as int],
                                );
                            }
                            match w {
                                Some(wid) => {
                                    let res = self.wake_by_ref(wid);
                                    proof {
                                        assert(res is Ok);
                                        let ghost q1 = self.queue.items@;
                                        assert(q1[0] == wid);
                                        assert forall|i: usize|
                                            i < self.tasks@.len() && (
                                        #[trigger] self.tasks@[i as int]).slot
                                            is Some implies self.queue.items@.contains(i)
                                            || self.hub.live_wake(i) by {
                                            assert(it0.hub.live_wake(i));
                                            let u = choose|u: int|
                                                0 <= u < it0.hub.timers@.len() && !(
                                                #[trigger] it0.hub.timers@[u]).completed
                                                    && it0.hub.timers@[u].waker == Some(i);
                                            if u == t as int {
                                                assert(wid == i);
                                                assert(self.queue.items@.contains(i));
                                            } else {
                                                assert(!h1.timers@[u].completed
                                                    && h1.timers@[u].waker == Some(i));
                                                assert(self.hub.live_wake(i));
                                            }
                                        }
                                        assert(self.measure() < it0.measure());
                                    }
                                },
                                None => {
                                    proof {
                                        assert forall|i: usize|
                                            i < self.tasks@.len() && (
                                        #[trigger] self.tasks@[i as int]).slot
                                            is Some implies self.queue.items@.contains(i)
                                            || self.hub.live_wake(i) by {
                                            assert(it0.hub.live_wake(i));
                                            let u = choose|u: int|
                                                0 <= u < it0.hub.timers@.len() && !(
                                                #[trigger] it0.hub.timers@[u]).completed
                                                    && it0.hub.timers@[u].waker == Some(i);
                                            assert(u != t as int);
                                            assert(!h1.timers@[u].completed && h1.timers@[u].waker
                                                == Some(i));
                                            assert(self.hub.live_wake(i));
                                        }
                                        assert(self.measure() < it0.measure());
                                    }
                                },
                            }
                        },
                        None => {
                            break ;
                        },
                    }
                },
            }
        }
        proof {
            assert forall|i: usize|
                i < self.tasks@.len() implies (#[trigger] self.tasks@[i as int]).slot is None by {
                if self.tasks@[i as int].slot is Some {
                    if self.hub.live_wake(i) {
                        let u = choose|u: int|
                            0 <= u < self.hub.timers@.len() && !(
                            #[trigger] self.hub.timers@[u]).completed && self.hub.timers@[u].waker
                                == Some(i);
                        assert(self.hub.timers@[u].completed);
                    }
                }
            }
        }
    }
}

} // verus!
