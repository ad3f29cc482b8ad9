//! One download from the first response to the finished file: how it is
//! fetched, with how many workers, and what it is called in the end.

use crate::headers::{first_value_bytes, header_text_of};
use crate::naming::{resolve_file_name, resolved_name};
use crate::partition::{
    base_span, interval_end, interval_start, into_intervals, is_partition, lemma_base_span_bounds,
    lemma_partition_nonempty, lemma_partition_tiles, lemma_starts_grow, tiles, Interval, WorkerId,
    MAX_WORKERS,
};
use crate::probe::{declared_size, get_file_size};
use crate::reassemble::{
    assembled, complete, fetched_from, holds, lemma_reassembly_restores, reassemble, Artifact,
    ReassemblyError,
};
use reqwest::header::HeaderMap;
use vstd::prelude::*;
use vstd::string::*;

verus! {

/// One worker's job: the interval it fetches and the id under which it
/// reports and stores.
#[derive(Debug, Clone, Copy, PartialEq, Eq)]
pub struct RangeTask {
    pub worker_id: WorkerId,
    pub start: u64,
    pub end: u64,
}

/// How a resource is fetched.
#[derive(Debug, PartialEq, Eq)]
pub enum DownloadPlan {
    /// One request for the whole body, read from front to end.
    SingleStream,
    /// One range request per task. The tasks run on a pool of as many
    /// threads; every task, once its artifact is stored, waits at a barrier
    /// of `barrier_parties`, and so does the coordinator before it joins
    /// the artifacts.
    Ranged { tasks: Vec<RangeTask>, barrier_parties: usize },
}

/// The finished download: its bytes and the name of its file.
#[derive(Debug, PartialEq, Eq)]
pub struct DownloadResult {
    pub file_name: String,
    pub bytes: Vec<u8>,
}

/// A download in the making.
pub struct Download {
    url: String,
    worker_count: usize,
    headers: HeaderMap,
    file_size: Option<u64>,
}

/// The number of workers for a resource: one where its size is unknown;
/// else as many as asked for, but no more than it has bytes and no more
/// than there are worker ids.
pub open spec fn effective_workers(file_size: Option<u64>, n_threads: usize) -> int {
    match file_size {
        Some(size) => {
            let bytes: int = if size == 0 {
                1
            } else {
                size as int
            };
            let most: int = if bytes < MAX_WORKERS {
                bytes
            } else {
                MAX_WORKERS as int
            };
            if n_threads < most {
                n_threads as int
            } else {
                most
            }
        },
        None => 1,
    }
}

/// The tasks of `worker_count` workers on a resource of `size` bytes: the
/// intervals of the partition in their order, with the ids `1`, `2`, ...
pub open spec fn planned_tasks(size: u64, worker_count: u64) -> Seq<RangeTask> {
    Seq::new(
        worker_count as nat,
        |i: int|
            RangeTask {
                worker_id: (i + 1) as WorkerId,
                start: interval_start(size, worker_count, i) as u64,
                end: interval_end(size, worker_count, i) as u64,
            },
    )
}

/// The intervals of the tasks, in their order.
pub open spec fn task_intervals(tasks: Seq<RangeTask>) -> Seq<Interval> {
    Seq::new(tasks.len(), |i: int| (tasks[i].start, tasks[i].end))
}

/// A response without `Content-Length` leaves the size unknown, and a
/// resource of unknown size has one worker, however many were asked for: it
/// is fetched as a single stream.
pub proof fn lemma_no_content_length_one_worker(headers: HeaderMap, n_threads: usize)
    requires
        first_value_bytes(headers, "Content-Length"@) is None,
    ensures
        declared_size(header_text_of(headers, "Content-Length"@)) is None,
        effective_workers(declared_size(header_text_of(headers, "Content-Length"@)), n_threads)
            == 1,
{
}

/// Asking for one worker gives one worker, whatever the size: the resource
/// is fetched as a single stream, as one of unknown size is.
pub proof fn lemma_one_thread_one_worker(file_size: Option<u64>)
    ensures
        effective_workers(file_size, 1) == 1,
        effective_workers(file_size, 1) == effective_workers(None, 1),
{
}

/// The planned tasks carry the ids `1`, `2`, ... and their intervals are the
/// partition of the resource, which tiles it without an empty interval.
pub proof fn lemma_planned_tasks_tile(size: u64, worker_count: u64)
    requires
        1 <= worker_count <= size,
        worker_count <= MAX_WORKERS,
    ensures
        forall|i: int|
            0 <= i < worker_count ==> (#[trigger] planned_tasks(size, worker_count)[i]).worker_id
                == i + 1,
        is_partition(task_intervals(planned_tasks(size, worker_count)), size, worker_count),
        tiles(task_intervals(planned_tasks(size, worker_count)), size),
{
    let intervals = task_intervals(planned_tasks(size, worker_count));
    assert forall|i: int| 0 <= i < intervals.len() implies {
        &&& (#[trigger] intervals[i]).0 == interval_start(size, worker_count, i)
        &&& intervals[i].1 == interval_end(size, worker_count, i)
    } by {
        lemma_base_span_bounds(size, worker_count);
        lemma_starts_grow(size, worker_count, 0, i);
        lemma_starts_grow(size, worker_count, i, worker_count - 1);
        if i < worker_count - 1 {
            lemma_starts_grow(size, worker_count, i + 1, worker_count - 1);
        }
        lemma_partition_nonempty(size, worker_count, i);
        assert(0 * base_span(size, worker_count) == 0) by (nonlinear_arith);
    }
    lemma_partition_tiles(intervals, size, worker_count);
}

/// What the workers of the planned tasks fetched of a resource joins to
/// that resource, byte for byte.
pub proof fn lemma_planned_download_restores(
    resource: Seq<u8>,
    worker_count: u64,
    artifacts: Seq<Artifact>,
)
    requires
        1 <= worker_count <= resource.len() <= u64::MAX,
        worker_count <= MAX_WORKERS,
        fetched_from(
            artifacts,
            resource,
            task_intervals(planned_tasks(resource.len() as u64, worker_count)),
        ),
    ensures
        assembled(artifacts) == resource,
{
    let size = resource.len() as u64;
    lemma_planned_tasks_tile(size, worker_count);
    lemma_reassembly_restores(
        resource,
        task_intervals(planned_tasks(size, worker_count)),
        artifacts,
    );
}

impl Download {
    /// The worker count fits the size: see [`effective_workers`].
    pub closed spec fn wf(&self) -> bool {
        &&& 1 <= self.worker_count <= MAX_WORKERS
        &&& match self.file_size {
            Some(size) => self.worker_count == 1 || self.worker_count <= size,
            None => self.worker_count == 1,
        }
    }

    /// Where the resource is.
    pub closed spec fn address(&self) -> Seq<char> {
        self.url@
    }

    /// The headers of the first response.
    pub closed spec fn response_headers(&self) -> HeaderMap {
        self.headers
    }

    /// The size of the resource, where the server declared it.
    pub closed spec fn size(&self) -> Option<u64> {
        self.file_size
    }

    /// The number of workers.
    pub closed spec fn workers(&self) -> int {
        self.worker_count as int
    }

    /// Sets a download up from the headers of the first response.
    ///
    /// The size is what `Content-Length` declares. Without it the download
    /// has one worker; with it, as many as `n_threads` asks for and the
    /// size admits.
    pub fn new(url: &str, n_threads: usize, headers: HeaderMap) -> (download: Download)
        requires
            n_threads >= 1,
        ensures
            download.wf(),
            download.address() == url@,
            download.response_headers() == headers,
            download.size() == declared_size(header_text_of(headers, "Content-Length"@)),
            download.workers() == effective_workers(download.size(), n_threads),
    {
        let file_size: Option<u64> = get_file_size(&headers);
        let worker_count: usize = match file_size {
            Some(size) => {
                let most: usize = if size == 0 {
                    1
                } else if size < MAX_WORKERS as u64 {
                    size as usize
                } else {
                    MAX_WORKERS
                };
                if n_threads < most {
                    n_threads
                } else {
                    most
                }
            },
            None => 1,
        };
        Download { url: String::from_str(url), worker_count, headers, file_size }
    }

    /// Where the resource is.
    pub fn url(&self) -> (url: &str)
        ensures
            url@ == self.address(),
    {
        self.url.as_str()
    }

    /// The headers of the first response.
    pub fn headers(&self) -> (headers: &HeaderMap)
        ensures
            *headers == self.response_headers(),
    {
        &self.headers
    }

    /// The size of the resource, where the server declared it.
    pub fn file_size(&self) -> (size: Option<u64>)
        ensures
            size == self.size(),
    {
        self.file_size
    }

    /// The number of workers.
    pub fn worker_count(&self) -> (count: usize)
        ensures
            count == self.workers(),
    {
        self.worker_count
    }

    /// Decides how the resource is fetched: in ranges where there is more
    /// than one worker, else as a single stream.
    pub fn run(&self) -> (plan: DownloadPlan)
        requires
            self.wf(),
        ensures
            match plan {
                DownloadPlan::SingleStream => self.workers() == 1,
                DownloadPlan::Ranged { tasks, barrier_parties } => {
                    &&& self.workers() > 1
                    &&& self.size() matches Some(size)
                    &&& tasks@ == planned_tasks(size, self.workers() as u64)
                    &&& forall|i: int|
                        0 <= i < tasks@.len() ==> (#[trigger] tasks@[i]).start <= tasks@[i].end
                    &&& barrier_parties == self.workers() + 1
                },
            },
    {
        if self.worker_count <= 1 {
            return DownloadPlan::SingleStream;
        }
        let size: u64 = match self.file_size {
            Some(size) => size,
            None => {
                return DownloadPlan::SingleStream;
            },
        };
        let intervals: Vec<Interval> = into_intervals(size, self.worker_count as u64);
        let mut tasks: Vec<RangeTask> = Vec::new();
        let mut i: usize = 0;
        while i < intervals.len()
            invariant
                i <= intervals@.len() == self.worker_count <= MAX_WORKERS,
                tasks@.len() == i,
                forall|j: int|
                    0 <= j < i ==> tasks@[j] == (RangeTask {
                        worker_id: (j + 1) as WorkerId,
                        start: intervals@[j].0,
                        end: intervals@[j].1,
                    }),
            decreases intervals@.len() - i,
        {
            let interval: Interval = intervals[i];
            tasks.push(
                RangeTask { worker_id: (i + 1) as WorkerId, start: interval.0, end: interval.1 },
            );
            i = i + 1;
        }
        assert(tasks@ =~= planned_tasks(size, self.worker_count as u64));
        assert forall|i: int| 0 <= i < tasks@.len() implies (#[trigger] tasks@[i]).start
            <= tasks@[i].end by {
            lemma_partition_nonempty(size, self.worker_count as u64, i);
        }
        DownloadPlan::Ranged { tasks, barrier_parties: self.worker_count + 1 }
    }

    /// The result of a single-stream download: the body as it came, under
    /// its resolved name.
    pub fn finish_single(&self, body: Vec<u8>) -> (result: DownloadResult)
        ensures
            result.bytes == body,
            result.file_name@ == resolved_name(
                header_text_of(self.response_headers(), "Content-Disposition"@),
                self.address(),
                body@,
            ),
    {
        let file_name: String = resolve_file_name(
            &self.headers,
            self.url.as_str(),
            body.as_slice(),
        );
        DownloadResult { file_name, bytes: body }
    }

    /// The result of a ranged download: the artifacts joined in ascending
    /// order of worker id, under the resolved name. Nothing is produced
    /// unless every worker's artifact is there.
    pub fn finish_ranged(&self, artifacts: &Vec<Artifact>) -> (outcome: Result<
        DownloadResult,
        ReassemblyError,
    >)
        ensures
            match outcome {
                Ok(result) => {
                    &&& artifacts@.len() <= MAX_WORKERS
                    &&& complete(artifacts@)
                    &&& result.bytes@ == assembled(artifacts@)
                    &&& result.file_name@ == resolved_name(
                        header_text_of(self.response_headers(), "Content-Disposition"@),
                        self.address(),
                        assembled(artifacts@),
                    )
                },
                Err(ReassemblyError::MissingArtifact { worker_id }) => {
                    &&& artifacts@.len() <= MAX_WORKERS
                    &&& 1 <= worker_id <= artifacts@.len()
                    &&& !holds(artifacts@, worker_id as int)
                    &&& forall|id: int| 1 <= id < worker_id ==> #[trigger] holds(artifacts@, id)
                },
                Err(ReassemblyError::TooManyArtifacts) => artifacts@.len() > MAX_WORKERS,
            },
    {
        let bytes: Vec<u8> = match reassemble(artifacts) {
            Ok(bytes) => bytes,
            Err(error) => {
                return Err(error);
            },
        };
        let file_name: String = resolve_file_name(
            &self.headers,
            self.url.as_str(),
            bytes.as_slice(),
        );
        Ok(DownloadResult { file_name, bytes })
    }
}

} // verus!
