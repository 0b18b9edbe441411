//! The ready queue: a bounded, strictly FIFO queue of task ids.
//!
//! It stands where a bounded multi-producer, single-consumer channel would: a
//! spawn or a wake pushes a task id at the back, the executor pops from the
//! front.  The capacity is fixed at construction, and pushing onto a full
//! queue is refused with [`QueueOverflow`] — the fatal condition of the
//! scheduler's error taxonomy, never a silent drop.

use vstd::prelude::*;

verus! {

/// A push found the queue at capacity.  The scheduler defines no recovery
/// from this: it signals a capacity chosen too small, and callers treat it as
/// fatal.
#[derive(Debug, PartialEq, Eq, Structural)]
pub struct QueueOverflow;

/// Bounded FIFO queue of task ids awaiting their next poll.
pub struct ReadyQueue {
    pub items: Vec<usize>,
    pub capacity: usize,
}

impl ReadyQueue {
    pub open spec fn wf(self) -> bool {
        self.items@.len() <= self.capacity
    }

    pub fn new(capacity: usize) -> (q: ReadyQueue)
        ensures
            q.wf(),
            q.items@.len() == 0,
            q.capacity == capacity,
    {
        ReadyQueue { items: Vec::new(), capacity }
    }

    pub fn len(&self) -> (n: usize)
        ensures
            n == self.items@.len(),
    {
        self.items.len()
    }

    /// Enqueues a task id at the back.  Succeeds exactly when the queue is
    /// below capacity; a full queue is left unchanged and the push is refused.
    pub fn push(&mut self, id: usize) -> (r: Result<(), QueueOverflow>)
        requires
            old(self).wf(),
        ensures
            final(self).wf(),
            final(self).capacity == old(self).capacity,
            r matches Ok(()) <==> old(self).items@.len() < old(self).capacity,
            r matches Ok(()) ==> final(self).items@ == old(self).items@.push(id),
            r matches Err(_) ==> final(self).items@ == old(self).items@,
    {
        if self.items.len() < self.capacity {
            self.items.push(id);
            Ok(())
        } else {
            Err(QueueOverflow)
        }
    }

    /// Dequeues the task id at the front; `None` exactly when the queue is
    /// empty.  Consumption is strictly FIFO.
    pub fn pop(&mut self) -> (r: Option<usize>)
        requires
            old(self).wf(),
        ensures
            final(self).wf(),
            final(self).capacity == old(self).capacity,
            match r {
                Some(id) => old(self).items@.len() > 0 && id == old(self).items@[0]
                    && final(self).items@ == old(self).items@.subrange(1, old(self).items@.len() as int),
                None => old(self).items@.len() == 0 && final(self).items@ == old(self).items@,
            },
    {
        if self.items.len() > 0 {
            let id = self.items.remove(0);
            Some(id)
        } else {
            None
        }
    }
}

} // verus!
