//! A resumable, segmented download engine: planning of byte-range segments,
//! the state that lets an interrupted transfer continue, the decisions of the
//! per-segment fetch loop and of the progress loop, and the table of
//! cancellation handles. Network, disk and clock stay with the caller, which
//! hands plain values in and acts on the plain values it gets back.

pub mod decimal;
pub mod error;
pub mod fetch;
pub mod plan;
pub mod progress;
pub mod registry;
pub mod segment;

pub use error::{describe_outcome, fault_message, DownloadError};
pub use fetch::{FetchEvent, FetchStatus, SegmentFetcher};
pub use plan::{plan_segments, state_file_for, DownloadState, DEFAULT_CONCURRENCY};
pub use progress::{
    poll_of, state_file_action, sum_downloaded, Progress, SegmentPoll, StateFileAction, EMIT_INTERVAL_MS,
    TICK_INTERVAL_MS,
};
pub use registry::{cancel_download, release_completed, SessionRegistry};
pub use segment::{range_header_value, SegmentState};
