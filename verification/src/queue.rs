//! The shared job queue the dispatcher feeds and the workers drain.
//!
//! The queue is unbounded on the producer side — the dispatcher always
//! succeeds at enqueueing — and delivers in first-in, first-out order.
//! `pop` hands an item out by removing it, so an item is delivered to at
//! most one caller: the exactly-once guarantee the worker pool relies on.
//! The shell around the library serializes access when several workers
//! share one queue; every interleaving of these calls keeps the contracts
//! stated here.

use vstd::prelude::*;
use vstd::seq_lib::group_to_multiset_ensures;
use crate::transcoder::Job;

verus! {

/// A first-in, first-out queue of transcoding jobs.
pub struct JobQueue {
    jobs: Vec<Job>,
}

impl View for JobQueue {
    type V = Seq<Job>;

    closed spec fn view(&self) -> Seq<Job> {
        self.jobs@
    }
}

impl JobQueue {
    /// The empty queue.
    pub fn new() -> (r: JobQueue)
        ensures
            r@ == Seq::<Job>::empty(),
    {
        JobQueue { jobs: Vec::new() }
    }

    pub fn len(&self) -> (r: usize)
        ensures
            r == self@.len(),
    {
        self.jobs.len()
    }

    /// Enqueue one job at the back. Never fails, never blocks: producers
    /// see an unbounded buffer.
    pub fn push(&mut self, job: Job)
        ensures
            final(self)@ == old(self)@.push(job),
    {
        self.jobs.push(job);
    }

    /// Dequeue the oldest job, if any. The delivered job leaves the
    /// queue, so no later `pop` can deliver it again.
    pub fn pop(&mut self) -> (r: Option<Job>)
        ensures
            ({
                match r {
                    Some(job) => old(self)@.len() > 0 && job == old(self)@[0] && final(self)@
                        == old(self)@.drop_first(),
                    None => old(self)@.len() == 0 && final(self)@ == old(self)@,
                }
            }),
    {
        if self.jobs.len() == 0 {
            None
        } else {
            let job = self.jobs.remove(0);
            proof {
                assert(final(self)@ =~= old(self)@.drop_first());
            }
            Some(job)
        }
    }
}

/// Delivery from the queue is exactly-once: what `pop` hands out, together
/// with what stays behind, partitions what the queue held — the delivered
/// job is gone from the queue, not copied out of it.
pub proof fn lemma_pop_delivers_exactly_once(before: Seq<Job>, after: Seq<Job>, job: Job)
    requires
        before.len() > 0,
        job == before[0],
        after == before.drop_first(),
    ensures
        before.to_multiset() == after.to_multiset().insert(job),
        after.to_multiset().count(job) + 1 == before.to_multiset().count(job),
    decreases before.len(),
{
    broadcast use group_to_multiset_ensures;

    assert(before.remove(0) =~= after);
    assert(before.remove(0).to_multiset() =~= before.to_multiset().remove(before[0]));
    assert(before.contains(job));
    assert(before.to_multiset().count(job) > 0);
    assert(before.to_multiset() =~= after.to_multiset().insert(job));
}

} // verus!
