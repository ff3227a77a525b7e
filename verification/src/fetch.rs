//! The decisions of the loop that fetches one segment: what each event of the
//! transfer does to the byte count and whether the loop goes on.

use vstd::prelude::*;
use crate::error::DownloadError;
use crate::plan::DownloadState;
use crate::segment::SegmentState;

verus! {

/// What happened since the fetcher was last asked.
#[derive(Clone, Debug, PartialEq, Eq)]
pub enum FetchEvent {
    /// The cancellation signal fired before the next chunk arrived.
    Cancelled,
    /// A chunk of this many bytes arrived and was written at the file position.
    ChunkWritten(usize),
    /// The response body is exhausted.
    StreamEnded,
    /// The transport or the file write failed with this cause.
    Failed(String),
}

/// Where the fetcher stands after an event.
#[derive(Clone, Debug, PartialEq, Eq)]
pub enum FetchStatus {
    /// Wait for the next event.
    Running,
    /// The loop ends without error; the task's result is this byte count.
    Finished(u64),
    /// The loop ends with this error.
    Failed(DownloadError),
}

/// The fetcher of one segment: the segment's place in the plan, its window,
/// and the bytes of the window that are on disk so far.
#[derive(Clone, Copy, Debug, PartialEq, Eq, Structural)]
pub struct SegmentFetcher {
    pub index: usize,
    pub segment: SegmentState,
}

/// What an event does to a fetcher: the fetcher after it, and where the loop
/// stands.
///
/// - A written chunk adds its length to the count and the loop goes on; when
///   the count would not fit in 64 bits there is no step and nothing changes.
/// - Cancellation and the end of the stream end the loop without error, with
///   the count reached so far.
/// - A failure ends the loop with `SegmentTransferFailed`, under the
///   fetcher's index and the failure's cause.
pub open spec fn step_of(before: SegmentFetcher, event: FetchEvent) -> (
    SegmentFetcher,
    Option<FetchStatus>,
) {
    match event {
        FetchEvent::ChunkWritten(len) => if before.segment.downloaded + len <= u64::MAX {
            (
                SegmentFetcher {
                    index: before.index,
                    segment: SegmentState {
                        downloaded: (before.segment.downloaded + len) as u64,
                        ..before.segment
                    },
                },
                Some(FetchStatus::Running),
            )
        } else {
            (before, None)
        },
        FetchEvent::Cancelled | FetchEvent::StreamEnded => (
            before,
            Some(FetchStatus::Finished(before.segment.downloaded)),
        ),
        FetchEvent::Failed(cause) => (
            before,
            Some(
                FetchStatus::Failed(
                    DownloadError::SegmentTransferFailed { index: before.index, cause },
                ),
            ),
        ),
    }
}

/// Where the loop of a fetcher stands that starts as `start` and takes these
/// events in order until one of them ends it: the status that ended it,
/// `Running` when the events ran out first, `None` when a count did not fit.
pub open spec fn run_of(start: SegmentFetcher, events: Seq<FetchEvent>) -> Option<FetchStatus>
    decreases events.len(),
{
    if events.len() == 0 {
        Some(FetchStatus::Running)
    } else {
        let (next, status) = step_of(start, events[0]);
        if status == Some(FetchStatus::Running) {
            run_of(next, events.drop_first())
        } else {
            status
        }
    }
}

/// A fetcher never reports less than it started from. Whatever events it
/// takes, the count it ends with is at least the count its segment was
/// recorded with, and a failure carries the fetcher's own index.
pub proof fn lemma_run_never_loses_count(start: SegmentFetcher, events: Seq<FetchEvent>)
    ensures
        run_of(start, events) matches Some(FetchStatus::Finished(count))
            ==> start.segment.downloaded <= count,
        run_of(start, events) matches Some(FetchStatus::Failed(e)) ==> (
        e matches DownloadError::SegmentTransferFailed { index, .. } && index == start.index),
    decreases events.len(),
{
    if events.len() > 0 {
        let (next, status) = step_of(start, events[0]);
        if status == Some(FetchStatus::Running) {
            lemma_run_never_loses_count(next, events.drop_first());
        }
    }
}

impl SegmentFetcher {
    /// The fetcher for segment `index` of a plan, starting from the count
    /// that the segment was recorded with.
    pub fn new(index: usize, segment: SegmentState) -> (r: SegmentFetcher)
        ensures
            r == (SegmentFetcher { index, segment }),
    {
        SegmentFetcher { index, segment }
    }

    /// The file offset at which the next chunk is written, and before the
    /// first chunk the offset to seek to: `start + downloaded`. `None`
    /// exactly when it does not fit in 64 bits.
    pub fn write_offset(&self) -> (r: Option<u64>)
        ensures
            match r {
                Some(offset) => offset == self.segment.resume_point(),
                None => self.segment.resume_point() > u64::MAX,
            },
    {
        self.segment.resume_offset()
    }

    /// Takes one event of the transfer; `step_of` says what it does. The
    /// window stays as it is and the count never goes down.
    pub fn step(&mut self, event: FetchEvent) -> (r: Option<FetchStatus>)
        ensures
            (*final(self), r) == step_of(*old(self), event),
            final(self).index == old(self).index,
            final(self).segment.start == old(self).segment.start,
            final(self).segment.end == old(self).segment.end,
            final(self).segment.downloaded >= old(self).segment.downloaded,
    {
        match event {
            FetchEvent::ChunkWritten(len) => {
                match self.segment.downloaded.checked_add(len as u64) {
                    Some(count) => {
                        self.segment.downloaded = count;
                        Some(FetchStatus::Running)
                    },
                    None => None,
                }
            },
            FetchEvent::Cancelled => Some(FetchStatus::Finished(self.segment.downloaded)),
            FetchEvent::StreamEnded => Some(FetchStatus::Finished(self.segment.downloaded)),
            FetchEvent::Failed(cause) => Some(
                FetchStatus::Failed(
                    DownloadError::SegmentTransferFailed { index: self.index, cause },
                ),
            ),
        }
    }
}

/// Resume correctness. The range that a segment asks for starts at
/// `start + downloaded`: every byte asked for lies in the window at or after
/// that offset, and in a well-formed segment the bytes of the window that are
/// not asked for are exactly the `downloaded` ones before it.
pub proof fn lemma_resume_asks_only_missing(seg: SegmentState, b: int)
    ensures
        seg.asks_for(b) ==> seg.start + seg.downloaded <= b && seg.covers(b),
        seg.wf() ==> (seg.covers(b) <==> (seg.start <= b < seg.start + seg.downloaded
            || seg.asks_for(b))),
{
}

impl DownloadState {
    /// One fetcher per segment, in order, each starting from the count its
    /// segment is recorded with, so that a resumed attempt asks only for what
    /// is still missing.
    pub fn fetchers(&self) -> (r: Vec<SegmentFetcher>)
        ensures
            r@.len() == self.segments@.len(),
            forall|i: int|
                0 <= i < r@.len() ==> #[trigger] r@[i] == (SegmentFetcher {
                    index: i as usize,
                    segment: self.segments@[i],
                }),
    {
        let mut out: Vec<SegmentFetcher> = Vec::new();
        let mut i: usize = 0;
        while i < self.segments.len()
            invariant
                i <= self.segments@.len(),
                out@.len() == i,
                forall|j: int|
                    0 <= j < i ==> #[trigger] out@[j] == (SegmentFetcher {
                        index: j as usize,
                        segment: self.segments@[j],
                    }),
            decreases self.segments@.len() - i,
        {
            out.push(SegmentFetcher::new(i, self.segments[i]));
            i += 1;
        }
        out
    }
}

} // verus!
