use std::collections::VecDeque;
use vstd::prelude::*;

use crate::error::PoolError;

verus! {

/// What a consumer gets when it asks the queue for work.
#[derive(Debug)]
pub enum Dequeued<J> {
    /// The job at the head of the queue, now owned by the consumer.
    Job(J),
    /// No job is pending but the queue is still open: the consumer waits.
    Empty,
    /// The queue is closed and drained: the consumer stops.
    Closed,
}

/// An unbounded FIFO queue of pending jobs that can be closed to new work.
pub struct JobQueue<J> {
    items: VecDeque<J>,
    closed: bool,
}

impl<J> JobQueue<J> {
    /// The pending jobs, head first.
    pub closed spec fn pending(&self) -> Seq<J> {
        self.items@
    }

    /// Whether the queue has been closed to new jobs.
    pub closed spec fn closed(&self) -> bool {
        self.closed
    }

    /// An open queue with nothing pending.
    pub fn new() -> (q: JobQueue<J>)
        ensures
            q.pending() == Seq::<J>::empty(),
            !q.closed(),
    {
        JobQueue { items: VecDeque::new(), closed: false }
    }

    /// Appends `job` at the tail, unless the queue is closed.
    pub fn enqueue(&mut self, job: J) -> (r: Result<(), PoolError>)
        ensures
            old(self).closed() ==> r == Err::<(), PoolError>(PoolError::QueueClosed)
                && final(self).pending() == old(self).pending(),
            !old(self).closed() ==> r == Ok::<(), PoolError>(())
                && final(self).pending() == old(self).pending().push(job),
            final(self).closed() == old(self).closed(),
    {
        if self.closed {
            Err(PoolError::QueueClosed)
        } else {
            self.items.push_back(job);
            Ok(())
        }
    }

    /// Removes and returns the head job; when nothing is pending, tells the
    /// consumer to wait (queue open) or to stop (queue closed).
    pub fn dequeue(&mut self) -> (r: Dequeued<J>)
        ensures
            old(self).pending().len() > 0 ==> r == Dequeued::Job(old(self).pending()[0])
                && final(self).pending() == old(self).pending().drop_first(),
            old(self).pending().len() == 0 ==> final(self).pending() == old(self).pending()
                && (if old(self).closed() { r is Closed } else { r is Empty }),
            final(self).closed() == old(self).closed(),
    {
        match self.items.pop_front() {
            Some(job) => Dequeued::Job(job),
            None => {
                if self.closed {
                    Dequeued::Closed
                } else {
                    Dequeued::Empty
                }
            },
        }
    }

    /// Closes the queue: later `enqueue` calls fail, pending jobs stay.
    pub fn close(&mut self)
        ensures
            final(self).closed(),
            final(self).pending() == old(self).pending(),
    {
        self.closed = true;
    }

    /// The number of pending jobs.
    pub fn len(&self) -> (n: usize)
        ensures
            n == self.pending().len(),
    {
        self.items.len()
    }

    /// Whether the queue has been closed to new jobs.
    pub fn is_closed(&self) -> (b: bool)
        ensures
            b == self.closed(),
    {
        self.closed
    }
}

} // verus!
