//! The counters that the background indexing queue keeps for the progress
//! display: files waiting, files being indexed, files done. They count as
//! atomics do, wrapping around, except that the waiting count never drops
//! below zero.
use vstd::prelude::*;

verus! {

/// `x + 1`, wrapping to 0 past the largest value.
pub open spec fn inc(x: usize) -> usize {
    if x == usize::MAX { 0 } else { (x + 1) as usize }
}

/// `x - 1`, wrapping to the largest value below 0.
pub open spec fn dec(x: usize) -> usize {
    if x == 0 { usize::MAX } else { (x - 1) as usize }
}

/// The progress of the indexing queue.
#[derive(Clone, Copy, PartialEq, Eq, Structural)]
pub struct IndexCounters {
    pub queue_len: usize,
    pub active: usize,
    pub completed: usize,
}

/// After a file was handed to the queue, or the hand-off failed.
pub open spec fn after_enqueue(c: IndexCounters, sent: bool) -> IndexCounters {
    if sent {
        IndexCounters { queue_len: inc(c.queue_len), ..c }
    } else {
        c
    }
}

/// After the worker took a file and started indexing it.
pub open spec fn after_start(c: IndexCounters) -> IndexCounters {
    IndexCounters { active: inc(c.active), ..c }
}

/// After the worker finished a file.
pub open spec fn after_finish(c: IndexCounters) -> IndexCounters {
    IndexCounters {
        queue_len: if c.queue_len == 0 { 0 } else { (c.queue_len - 1) as usize },
        active: dec(c.active),
        completed: inc(c.completed),
    }
}

impl IndexCounters {
    /// Nothing queued, running or done.
    pub fn new() -> (r: Self)
        ensures
            r == (IndexCounters { queue_len: 0, active: 0, completed: 0 }),
    {
        IndexCounters { queue_len: 0, active: 0, completed: 0 }
    }

    /// A file was handed to the queue (`sent`) or the hand-off failed.
    pub fn enqueued(&mut self, sent: bool)
        ensures
            *final(self) == after_enqueue(*old(self), sent),
    {
        if sent {
            self.queue_len = if self.queue_len == usize::MAX { 0 } else { self.queue_len + 1 };
        }
    }

    /// The worker took a file from the queue and started indexing it.
    pub fn started(&mut self)
        ensures
            *final(self) == after_start(*old(self)),
    {
        self.active = if self.active == usize::MAX { 0 } else { self.active + 1 };
    }

    /// The worker finished a file, whether or not indexing succeeded.
    pub fn finished(&mut self)
        ensures
            *final(self) == after_finish(*old(self)),
    {
        self.active = if self.active == 0 { usize::MAX } else { self.active - 1 };
        self.completed = if self.completed == usize::MAX { 0 } else { self.completed + 1 };
        self.queue_len = if self.queue_len == 0 { 0 } else { self.queue_len - 1 };
    }
}

/// Indexing one queued file, from hand-off to finish, leaves one file more
/// done and, short of wrapping, as many running and waiting as before.
pub proof fn lemma_one_file_round_trip(c: IndexCounters)
    requires
        c.queue_len < usize::MAX,
        c.active < usize::MAX,
    ensures
        after_finish(after_start(after_enqueue(c, true))) == (IndexCounters { completed: inc(c.completed), ..c }),
{
}

} // verus!
