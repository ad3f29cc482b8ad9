//! One worker's side of a download: the request it sends for its interval
//! and the bytes it collects, chunk by chunk.

use crate::decimal::{decimal_text, to_decimal};
use crate::partition::WorkerId;
use vstd::prelude::*;
use vstd::string::*;

verus! {

/// How far one worker has come: the bytes it has read so far, all chunks
/// together.
#[derive(Debug, Clone, Copy, PartialEq, Eq)]
pub struct ProgressEvent {
    pub worker_id: WorkerId,
    pub cumulative_bytes: u64,
}

/// What a worker does after a read.
#[derive(Debug, Clone, Copy, PartialEq, Eq)]
pub enum FetchStep {
    /// Bytes came: report them and read on.
    Progress(ProgressEvent),
    /// The stream is exhausted: the collected bytes are the artifact.
    Finished,
}

/// The value of the `Range` header that asks for the bytes from `start` to
/// `end`, both included.
pub open spec fn range_header_text(start: u64, end: u64) -> Seq<char> {
    "bytes="@ + decimal_text(start as nat) + "-"@ + decimal_text(end as nat)
}

/// The line shown while a download of unknown size runs.
pub open spec fn progress_message_text(total: u64) -> Seq<char> {
    "Downloaded "@ + decimal_text(total as nat) + " bytes..."@
}

/// The value of the `Range` header for one interval.
pub fn range_header(start: u64, end: u64) -> (value: String)
    ensures
        value@ == range_header_text(start, end),
{
    let mut value: String = String::from_str("bytes=");
    value.append(to_decimal(start).as_str());
    value.append("-");
    value.append(to_decimal(end).as_str());
    value
}

/// The line that tells how many bytes a download of unknown size has
/// brought so far.
pub fn progress_message(total: u64) -> (line: String)
    ensures
        line@ == progress_message_text(total),
{
    let mut line: String = String::from_str("Downloaded ");
    line.append(to_decimal(total).as_str());
    line.append(" bytes...");
    line
}

/// The bytes that one worker has read so far.
pub struct StreamCollector {
    worker_id: WorkerId,
    buffer: Vec<u8>,
}

impl View for StreamCollector {
    type V = Seq<u8>;

    closed spec fn view(&self) -> Seq<u8> {
        self.buffer@
    }
}

impl StreamCollector {
    /// The worker that collects.
    pub closed spec fn worker(&self) -> WorkerId {
        self.worker_id
    }

    /// A collector that has read nothing yet.
    pub fn new(worker_id: WorkerId) -> (collector: StreamCollector)
        ensures
            collector.worker() == worker_id,
            collector@ == Seq::<u8>::empty(),
    {
        StreamCollector { worker_id, buffer: Vec::new() }
    }

    /// Takes in what one read brought. An empty chunk ends the stream and
    /// changes nothing. Any other chunk is appended, and the event tells how
    /// many bytes have been read in all: never fewer than before.
    pub fn on_read(&mut self, chunk: &[u8]) -> (step: FetchStep)
        ensures
            final(self).worker() == old(self).worker(),
            final(self)@ == old(self)@ + chunk@,
            chunk@.len() == 0 <==> step is Finished,
            step matches FetchStep::Progress(event) ==> {
                &&& event.worker_id == old(self).worker()
                &&& event.cumulative_bytes == final(self)@.len()
                &&& event.cumulative_bytes > old(self)@.len()
            },
    {
        if chunk.len() == 0 {
            assert(self.buffer@ + chunk@ =~= self.buffer@);
            return FetchStep::Finished;
        }
        let ghost before = self.buffer@;
        self.buffer.extend_from_slice(chunk);
        assert(self.buffer@ =~= before + chunk@);
        FetchStep::Progress(
            ProgressEvent {
                worker_id: self.worker_id,
                cumulative_bytes: self.buffer.len() as u64,
            },
        )
    }

    /// The number of bytes read so far.
    pub fn received(&self) -> (count: u64)
        ensures
            count == self@.len(),
    {
        self.buffer.len() as u64
    }

    /// The bytes read, as the worker's artifact.
    pub fn into_bytes(self) -> (bytes: Vec<u8>)
        ensures
            bytes@ == self@,
    {
        self.buffer
    }
}

} // verus!
