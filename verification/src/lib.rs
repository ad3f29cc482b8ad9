//! Planning and bookkeeping for a byte-range file downloader.
//!
//! A resource of known size is cut into contiguous byte intervals, one per
//! worker; every worker reports how far it has come; the finished pieces are
//! joined again in worker order and the result is given a file name. This
//! crate holds those rules and proves them. Sockets, threads and files are
//! the caller's business.

pub mod coordinator;
pub mod decimal;
pub mod download;
pub mod fetch;
pub mod headers;
pub mod naming;
pub mod partition;
pub mod probe;
pub mod progress;
pub mod reassemble;
pub mod text;

pub use coordinator::{Action, Coordinator, Phase};
pub use download::{Download, DownloadPlan, DownloadResult, RangeTask};
pub use fetch::{FetchStep, ProgressEvent, StreamCollector};
pub use partition::{into_intervals, Interval, WorkerId, MAX_WORKERS};
pub use progress::{ProgressAggregator, ProgressError};
pub use reassemble::{reassemble, Artifact, ReassemblyError};
