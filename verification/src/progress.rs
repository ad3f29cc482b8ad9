//! Adding up what the workers report.
//!
//! The aggregator keeps the latest count of every worker and their sum. It
//! is the only reader of the workers' events.

use crate::decimal::{decimal_text, to_decimal};
use crate::fetch::ProgressEvent;
use crate::partition::{span, tiles, Interval, WorkerId, MAX_WORKERS};
use vstd::prelude::*;
use vstd::string::*;

verus! {

/// The sum of the counts.
pub open spec fn sum(counts: Seq<u64>) -> nat
    decreases counts.len(),
{
    if counts.len() == 0 {
        0
    } else {
        sum(counts.drop_last()) + counts.last() as nat
    }
}

/// No worker has counted more bytes than its interval holds.
pub open spec fn within_intervals(counts: Seq<u64>, intervals: Seq<Interval>) -> bool {
    &&& counts.len() == intervals.len()
    &&& forall|i: int| 0 <= i < counts.len() ==> #[trigger] counts[i] <= span(intervals[i])
}

/// Why an event was not taken in.
#[derive(Debug, Clone, Copy, PartialEq, Eq)]
pub enum ProgressError {
    /// The event names a worker that the aggregator was not made for.
    UnknownWorker { worker_id: WorkerId },
    /// With this event the sum would not fit in 64 bits.
    Overflow,
}

impl ProgressError {
    /// What the user is told: the stage that failed and the worker
    /// concerned.
    pub open spec fn message(self) -> Seq<char> {
        match self {
            ProgressError::UnknownWorker { worker_id } => "fetch: progress of unknown worker "@
                + decimal_text(worker_id as nat),
            ProgressError::Overflow => "fetch: more bytes reported than can be counted"@,
        }
    }

    /// The message for the user.
    pub fn describe(&self) -> (text: String)
        ensures
            text@ == self.message(),
    {
        match self {
            ProgressError::UnknownWorker { worker_id } => {
                let mut text: String = String::from_str("fetch: progress of unknown worker ");
                text.append(to_decimal(*worker_id as u64).as_str());
                text
            },
            ProgressError::Overflow => String::from_str(
                "fetch: more bytes reported than can be counted",
            ),
        }
    }
}

/// The latest count of every worker, their sum, and the size to reach.
pub struct ProgressAggregator {
    per_worker: Vec<u64>,
    downloaded: u64,
    total_size: u64,
}

/// Replacing one count moves the sum by the difference.
pub proof fn lemma_sum_update(counts: Seq<u64>, at: int, count: u64)
    requires
        0 <= at < counts.len(),
    ensures
        sum(counts.update(at, count)) == sum(counts) - counts[at] + count,
    decreases counts.len(),
{
    let updated = counts.update(at, count);
    if at == counts.len() - 1 {
        assert(updated.drop_last() =~= counts.drop_last());
    } else {
        lemma_sum_update(counts.drop_last(), at, count);
        assert(updated.drop_last() =~= counts.drop_last().update(at, count));
    }
}

/// Counts that are all zero sum to zero.
pub proof fn lemma_sum_zero(counts: Seq<u64>)
    requires
        forall|i: int| 0 <= i < counts.len() ==> counts[i] == 0,
    ensures
        sum(counts) == 0,
    decreases counts.len(),
{
    if counts.len() > 0 {
        lemma_sum_zero(counts.drop_last());
    }
}

/// Counts within the first `upto` intervals of a tiling sum to no more than
/// the bytes up to the end of the last of them.
pub proof fn lemma_sum_within_prefix(
    counts: Seq<u64>,
    intervals: Seq<Interval>,
    total_size: u64,
    upto: int,
)
    requires
        tiles(intervals, total_size),
        within_intervals(counts, intervals),
        1 <= upto <= intervals.len(),
    ensures
        sum(counts.subrange(0, upto)) <= intervals[upto - 1].1 + 1,
    decreases upto,
{
    let head = counts.subrange(0, upto);
    assert(head.last() == counts[upto - 1]);
    if upto == 1 {
        assert(head.drop_last() =~= Seq::<u64>::empty());
        assert(sum(head.drop_last()) == 0);
    } else {
        lemma_sum_within_prefix(counts, intervals, total_size, upto - 1);
        assert(head.drop_last() =~= counts.subrange(0, upto - 1));
        assert(intervals[upto - 2].1 + 1 == intervals[upto - 1].0);
    }
}

/// As long as no worker counts more bytes than its interval holds, the sum
/// of the counts does not exceed the size of the resource.
pub proof fn lemma_sum_within_size(counts: Seq<u64>, intervals: Seq<Interval>, total_size: u64)
    requires
        tiles(intervals, total_size),
        within_intervals(counts, intervals),
    ensures
        sum(counts) <= total_size,
{
    lemma_sum_within_prefix(counts, intervals, total_size, intervals.len() as int);
    assert(counts.subrange(0, counts.len() as int) =~= counts);
}

impl ProgressAggregator {
    /// The sum is kept up to date and every worker has an id.
    pub closed spec fn wf(&self) -> bool {
        &&& self.downloaded == sum(self.per_worker@)
        &&& self.per_worker@.len() <= MAX_WORKERS
    }

    /// The latest count of each worker: worker `1` first.
    pub closed spec fn counts(&self) -> Seq<u64> {
        self.per_worker@
    }

    /// The size to reach.
    pub closed spec fn target(&self) -> u64 {
        self.total_size
    }

    /// `worker_id` is one of the workers that the aggregator was made for.
    pub open spec fn knows(&self, worker_id: WorkerId) -> bool {
        1 <= worker_id <= self.counts().len()
    }

    /// An aggregator for `worker_count` workers that have read nothing yet.
    pub fn new(worker_count: WorkerId, total_size: u64) -> (aggregator: ProgressAggregator)
        ensures
            aggregator.wf(),
            aggregator.target() == total_size,
            aggregator.counts() == Seq::new(worker_count as nat, |i: int| 0u64),
            sum(aggregator.counts()) == 0,
    {
        let mut per_worker: Vec<u64> = Vec::new();
        let mut made: WorkerId = 0;
        while made < worker_count
            invariant
                made <= worker_count,
                per_worker@ == Seq::new(made as nat, |i: int| 0u64),
            decreases worker_count - made,
        {
            per_worker.push(0);
            made = made + 1;
            assert(per_worker@ =~= Seq::new(made as nat, |i: int| 0u64));
        }
        proof {
            lemma_sum_zero(per_worker@);
        }
        ProgressAggregator { per_worker, downloaded: 0, total_size }
    }

    /// Takes in one event: the worker's count is overwritten with the
    /// event's, and the result is the new sum over all workers.
    ///
    /// An event of a worker that counts on never lowers the sum. An event of
    /// an unknown worker, or one that would take the sum out of range,
    /// changes nothing.
    pub fn record(&mut self, event: ProgressEvent) -> (outcome: Result<u64, ProgressError>)
        requires
            old(self).wf(),
        ensures
            final(self).wf(),
            final(self).target() == old(self).target(),
            match outcome {
                Ok(downloaded) => {
                    &&& old(self).knows(event.worker_id)
                    &&& final(self).counts() == old(self).counts().update(
                        event.worker_id - 1,
                        event.cumulative_bytes,
                    )
                    &&& downloaded == sum(final(self).counts())
                    &&& event.cumulative_bytes >= old(self).counts()[event.worker_id - 1]
                        ==> downloaded >= sum(old(self).counts())
                },
                Err(ProgressError::UnknownWorker { worker_id }) => {
                    &&& !old(self).knows(event.worker_id)
                    &&& worker_id == event.worker_id
                    &&& final(self).counts() == old(self).counts()
                },
                Err(ProgressError::Overflow) => {
                    &&& old(self).knows(event.worker_id)
                    &&& sum(
                        old(self).counts().update(event.worker_id - 1, event.cumulative_bytes),
                    ) > u64::MAX
                    &&& final(self).counts() == old(self).counts()
                },
            },
    {
        let id: usize = event.worker_id as usize;
        if id == 0 || id > self.per_worker.len() {
            return Err(ProgressError::UnknownWorker { worker_id: event.worker_id });
        }
        let before: u64 = self.per_worker[id - 1];
        proof {
            lemma_sum_update(self.per_worker@, id - 1, event.cumulative_bytes);
            lemma_sum_at_least(self.per_worker@, id - 1);
        }
        let others: u64 = self.downloaded - before;
        let downloaded: u64 = match others.checked_add(event.cumulative_bytes) {
            Some(downloaded) => downloaded,
            None => {
                return Err(ProgressError::Overflow);
            },
        };
        self.per_worker.set(id - 1, event.cumulative_bytes);
        self.downloaded = downloaded;
        Ok(downloaded)
    }

    /// The bytes that all workers together have read, as far as reported.
    pub fn downloaded(&self) -> (downloaded: u64)
        requires
            self.wf(),
        ensures
            downloaded == sum(self.counts()),
    {
        self.downloaded
    }

    /// The size to reach.
    pub fn total_size(&self) -> (total_size: u64)
        ensures
            total_size == self.target(),
    {
        self.total_size
    }

    /// Whether the workers have reported as many bytes as the resource has.
    pub fn is_complete(&self) -> (complete: bool)
        requires
            self.wf(),
        ensures
            complete == (sum(self.counts()) >= self.target()),
    {
        self.downloaded >= self.total_size
    }
}

/// The sum is no smaller than any one of the counts.
pub proof fn lemma_sum_at_least(counts: Seq<u64>, at: int)
    requires
        0 <= at < counts.len(),
    ensures
        counts[at] <= sum(counts),
    decreases counts.len(),
{
    if at < counts.len() - 1 {
        lemma_sum_at_least(counts.drop_last(), at);
    }
}

} // verus!
