//! One round of the loop that drives a download attempt: what it does with a
//! pause request, with the fetchers that have ended, and with the totals.

use vstd::prelude::*;
use tokio_util::sync::CancellationToken;
use crate::error::{message_text, DownloadError};
use crate::fetch::{lemma_run_never_loses_count, run_of, FetchEvent, FetchStatus, SegmentFetcher};
use crate::plan::{contiguous, within_windows, DownloadState};
use crate::segment::SegmentState;

verus! {

/// A progress event is sent when at least this many milliseconds have passed
/// since the last one.
pub const EMIT_INTERVAL_MS: u128 = 50;

/// Milliseconds the loop sleeps between two rounds.
pub const TICK_INTERVAL_MS: u64 = 100;

/// What a non-blocking look at one segment's fetcher found.
#[derive(Clone, Debug, PartialEq, Eq)]
pub enum SegmentPoll {
    /// The fetcher has not ended, or its end was already taken in.
    Pending,
    /// The fetcher ended and reports this many bytes of its window on disk.
    Finished(u64),
    /// The fetcher ended on a transport or write fault with this cause.
    Failed(String),
}

/// The totals of one round and what to do with them.
#[derive(Clone, Copy, Debug, PartialEq, Eq, Structural)]
pub struct Progress {
    /// Sum of the segments' byte counts.
    pub transferred: u64,
    /// Whether a progress event is due.
    pub emit: bool,
    /// Whether every byte is there and the attempt ends in success.
    pub completed: bool,
}

/// What becomes of the state file when a round has been taken.
#[derive(Clone, Copy, Debug, PartialEq, Eq, Structural)]
pub enum StateFileAction {
    /// Leave whatever is on disk.
    Keep,
    /// Write the current state: the attempt was paused.
    Write,
    /// Delete the file: the download is complete.
    Remove,
}

/// A segment after its fetcher's poll has been taken in: a finished fetcher's
/// count replaces the recorded one, anything else leaves it.
pub open spec fn adopted(seg: SegmentState, poll: SegmentPoll) -> SegmentState {
    match poll {
        SegmentPoll::Finished(count) => SegmentState { downloaded: count, ..seg },
        _ => seg,
    }
}

/// The segments after the polls of the first `k` of them have been taken in.
pub open spec fn adopted_upto(segs: Seq<SegmentState>, polls: Seq<SegmentPoll>, k: int) -> Seq<
    SegmentState,
> {
    Seq::new(
        segs.len(),
        |i: int|
            if i < k {
                adopted(segs[i], polls[i])
            } else {
                segs[i]
            },
    )
}

/// Sum of the byte counts of all segments.
pub open spec fn total_downloaded(segs: Seq<SegmentState>) -> int
    decreases segs.len(),
{
    if segs.len() == 0 {
        0
    } else {
        total_downloaded(segs.drop_last()) + segs.last().downloaded
    }
}

/// None of the first `k` polls is a failure.
pub open spec fn failure_free(polls: Seq<SegmentPoll>, k: int) -> bool {
    forall|j: int| 0 <= j < k && j < polls.len() ==> !((#[trigger] polls[j]) is Failed)
}

/// Poll `k` is a failure and none before it is.
pub open spec fn fails_first_at(polls: Seq<SegmentPoll>, k: int) -> bool {
    &&& 0 <= k < polls.len()
    &&& polls[k] is Failed
    &&& failure_free(polls, k)
}

/// `after` is `before` with these segments.
pub open spec fn with_segments(
    before: DownloadState,
    after: DownloadState,
    segs: Seq<SegmentState>,
) -> bool {
    &&& after.id == before.id
    &&& after.url == before.url
    &&& after.output == before.output
    &&& after.total_size == before.total_size
    &&& after.concurrency == before.concurrency
    &&& after.segments@ == segs
}

/// What one round does, given whether a pause was requested, what the look at
/// each fetcher found, and the milliseconds since the last progress event.
///
/// - No round is taken, and nothing changes, when there is not one poll per
///   segment, or when the sum of the byte counts would not fit in 64 bits.
/// - A pause request ends the attempt as `Paused` and leaves the state as it
///   is, to be written to disk.
/// - Otherwise the polls are taken in by index. The first failed one ends the
///   attempt as `SegmentTransferFailed` with its index and cause; the
///   segments before it have taken their poll in.
/// - Otherwise every finished fetcher's count replaces the recorded one, the
///   sum of the counts is the bytes transferred, an event is due when
///   `EMIT_INTERVAL_MS` have passed, and the attempt is complete when the sum
///   has reached the total size.
pub open spec fn round_outcome(
    before: DownloadState,
    after: DownloadState,
    cancelled: bool,
    polls: Seq<SegmentPoll>,
    since_last_emit_ms: u128,
    r: Option<Result<Progress, DownloadError>>,
) -> bool {
    let segs = before.segments@;
    let all = adopted_upto(segs, polls, segs.len() as int);
    if polls.len() != segs.len() {
        r.is_none() && after == before
    } else if cancelled {
        r == Some(Err::<Progress, DownloadError>(DownloadError::Paused)) && after == before
    } else if failure_free(polls, polls.len() as int) {
        if total_downloaded(all) > u64::MAX {
            r.is_none() && after == before
        } else {
            &&& with_segments(before, after, all)
            &&& r == Some(
                Ok::<Progress, DownloadError>(
                    Progress {
                        transferred: total_downloaded(all) as u64,
                        emit: since_last_emit_ms >= EMIT_INTERVAL_MS,
                        completed: total_downloaded(all) >= before.total_size,
                    },
                ),
            )
        }
    } else {
        exists|k: int|
            {
                &&& #[trigger] fails_first_at(polls, k)
                &&& with_segments(before, after, adopted_upto(segs, polls, k))
                &&& polls[k] matches SegmentPoll::Failed(cause)
                &&& r == Some(
                    Err::<Progress, DownloadError>(
                        DownloadError::SegmentTransferFailed { index: k as usize, cause },
                    ),
                )
            }
    }
}

/// The cause that a fetcher's error is polled with: the cause of a failed
/// segment, the message of any other error.
pub open spec fn cause_text(e: DownloadError) -> Seq<char> {
    match e {
        DownloadError::SegmentTransferFailed { index, cause } => cause@,
        other => message_text(other),
    }
}

/// `poll` is what the look at a fetcher finds that stands at `status`: a
/// running one is pending, a finished one gives its count, a failed one its
/// cause.
pub open spec fn is_poll_of(status: FetchStatus, poll: SegmentPoll) -> bool {
    match status {
        FetchStatus::Running => poll == SegmentPoll::Pending,
        FetchStatus::Finished(count) => poll == SegmentPoll::Finished(count),
        FetchStatus::Failed(e) => poll matches SegmentPoll::Failed(cause) && cause@ == cause_text(
            e,
        ),
    }
}

/// `poll` is pending, or it is what the look at a fetcher finds that started
/// from the segment as it is recorded and took some events.
pub open spec fn polled_from(seg: SegmentState, index: usize, poll: SegmentPoll) -> bool {
    poll is Pending || exists|events: Seq<FetchEvent>, status: FetchStatus|
        #![trigger run_of(SegmentFetcher { index, segment: seg }, events), is_poll_of(status, poll)]
        run_of(SegmentFetcher { index, segment: seg }, events) == Some(status) && is_poll_of(
            status,
            poll,
        )
}

/// What becomes of the state file after a round with this result.
pub open spec fn state_file_action_of(r: Result<Progress, DownloadError>) -> StateFileAction {
    match r {
        Ok(p) => if p.completed {
            StateFileAction::Remove
        } else {
            StateFileAction::Keep
        },
        Err(DownloadError::Paused) => StateFileAction::Write,
        Err(_) => StateFileAction::Keep,
    }
}

proof fn lemma_total_of_prefix(segs: Seq<SegmentState>, k: int)
    requires
        0 <= k < segs.len(),
    ensures
        total_downloaded(segs.take(k + 1)) == total_downloaded(segs.take(k)) + segs[k].downloaded,
{
    assert(segs.take(k + 1).drop_last() =~= segs.take(k));
}

proof fn lemma_total_prefix_grows(segs: Seq<SegmentState>, k: int)
    requires
        0 <= k <= segs.len(),
    ensures
        0 <= total_downloaded(segs.take(k)) <= total_downloaded(segs),
    decreases segs.len() - k,
{
    if k == segs.len() {
        assert(segs.take(k) =~= segs);
        lemma_total_nonnegative(segs);
    } else {
        lemma_total_of_prefix(segs, k);
        lemma_total_prefix_grows(segs, k + 1);
        lemma_total_nonnegative(segs.take(k));
    }
}

proof fn lemma_total_nonnegative(segs: Seq<SegmentState>)
    ensures
        0 <= total_downloaded(segs),
    decreases segs.len(),
{
    if segs.len() > 0 {
        lemma_total_nonnegative(segs.drop_last());
    }
}

proof fn lemma_total_pointwise(a: Seq<SegmentState>, b: Seq<SegmentState>)
    requires
        a.len() == b.len(),
        forall|i: int| 0 <= i < a.len() ==> (#[trigger] a[i]).downloaded <= b[i].downloaded,
    ensures
        total_downloaded(a) <= total_downloaded(b),
    decreases a.len(),
{
    if a.len() > 0 {
        assert forall|i: int| 0 <= i < a.drop_last().len() implies (#[trigger] a.drop_last()[i]).downloaded
            <= b.drop_last()[i].downloaded by {
            assert(a.drop_last()[i] == a[i]);
            assert(b.drop_last()[i] == b[i]);
        }
        lemma_total_pointwise(a.drop_last(), b.drop_last());
        assert(a[a.len() - 1].downloaded <= b[a.len() - 1].downloaded);
    }
}

proof fn lemma_total_within_chain(segs: Seq<SegmentState>, total: int, k: int)
    requires
        contiguous(segs, total),
        within_windows(segs),
        1 <= k <= segs.len(),
    ensures
        total_downloaded(segs.take(k)) <= segs[k - 1].end + 1,
    decreases k,
{
    lemma_total_of_prefix(segs, k - 1);
    assert(segs[k - 1].downloaded <= segs[k - 1].span());
    if k == 1 {
        assert(segs.take(0).len() == 0);
    } else {
        lemma_total_within_chain(segs, total, k - 1);
        assert(segs[k - 2].end + 1 == segs[k - 1].start);
    }
}

/// Progress monotonicity. When every finished fetcher reports at least the
/// count its segment was recorded with, as a fetcher that starts from that
/// count and only adds to it does, taking the polls in never lowers the
/// number of bytes transferred, however many of the polls are taken in.
pub proof fn lemma_transferred_never_decreases(
    segs: Seq<SegmentState>,
    polls: Seq<SegmentPoll>,
    k: int,
)
    requires
        polls.len() == segs.len(),
        forall|i: int|
            0 <= i < segs.len() ==> ((#[trigger] polls[i]) matches SegmentPoll::Finished(count)
                ==> segs[i].downloaded <= count),
    ensures
        total_downloaded(segs) <= total_downloaded(adopted_upto(segs, polls, k)),
{
    let next = adopted_upto(segs, polls, k);
    assert forall|i: int| 0 <= i < segs.len() implies (#[trigger] segs[i]).downloaded
        <= next[i].downloaded by {
        let p = polls[i];
    }
    lemma_total_pointwise(segs, next);
}

/// Taking polls in keeps a plan well formed as long as no finished fetcher
/// reports more bytes than its window holds.
pub proof fn lemma_adoption_keeps_plan(
    before: DownloadState,
    after: DownloadState,
    polls: Seq<SegmentPoll>,
    k: int,
)
    requires
        before.wf(),
        polls.len() == before.segments@.len(),
        forall|i: int|
            0 <= i < polls.len() ==> ((#[trigger] polls[i]) matches SegmentPoll::Finished(count)
                ==> count <= before.segments@[i].span()),
        with_segments(before, after, adopted_upto(before.segments@, polls, k)),
    ensures
        after.wf(),
{
    let segs = before.segments@;
    let next = after.segments@;
    assert forall|i: int| 0 <= i < next.len() implies {
        &&& (#[trigger] next[i]).start == segs[i].start
        &&& next[i].end == segs[i].end
        &&& next[i].downloaded <= next[i].span()
    } by {
        let p = polls[i];
        assert(segs[i].downloaded <= segs[i].span());
    }
    assert forall|i: int| 0 <= i < next.len() implies (#[trigger] next[i]).start
        <= next[i].end by {
        assert(segs[i].start <= segs[i].end);
    }
    assert forall|i: int, j: int| 0 <= i && j == i + 1 && j < next.len() implies (
    #[trigger] next[i]).end + 1 == (#[trigger] next[j]).start by {
        assert(segs[i].end + 1 == segs[j].start);
    }
}

/// A round never loses progress. When every finished fetcher reports at least
/// the count its segment was recorded with, the sum of the counts after a
/// round is at least the sum before it, so the bytes transferred of one
/// progress event are never fewer than those of the event before.
pub proof fn lemma_round_never_loses_progress(
    before: DownloadState,
    after: DownloadState,
    cancelled: bool,
    polls: Seq<SegmentPoll>,
    since_last_emit_ms: u128,
    r: Option<Result<Progress, DownloadError>>,
)
    requires
        round_outcome(before, after, cancelled, polls, since_last_emit_ms, r),
        forall|i: int|
            0 <= i < polls.len() && i < before.segments@.len() ==> ((
            #[trigger] polls[i]) matches SegmentPoll::Finished(count)
                ==> before.segments@[i].downloaded <= count),
    ensures
        total_downloaded(before.segments@) <= total_downloaded(after.segments@),
        r matches Some(Ok(p)) ==> p.transferred == total_downloaded(after.segments@),
{
    let segs = before.segments@;
    lemma_total_nonnegative(after.segments@);
    if polls.len() == segs.len() && !cancelled {
        if failure_free(polls, polls.len() as int) {
            lemma_transferred_never_decreases(segs, polls, segs.len() as int);
        } else {
            let k = choose|k: int|
                #[trigger] fails_first_at(polls, k) && with_segments(
                    before,
                    after,
                    adopted_upto(segs, polls, k),
                );
            lemma_transferred_never_decreases(segs, polls, k);
        }
    }
}

/// Progress monotonicity. In an attempt every poll is pending or comes from
/// the fetcher that was started from its segment's recorded count, and a
/// fetcher's count only grows. So no round lowers the sum of the counts, and
/// the bytes transferred of successive progress events never decrease.
pub proof fn lemma_attempt_never_loses_progress(
    before: DownloadState,
    after: DownloadState,
    cancelled: bool,
    polls: Seq<SegmentPoll>,
    since_last_emit_ms: u128,
    r: Option<Result<Progress, DownloadError>>,
)
    requires
        round_outcome(before, after, cancelled, polls, since_last_emit_ms, r),
        forall|i: int|
            0 <= i < polls.len() && i < before.segments@.len() ==> polled_from(
                before.segments@[i],
                i as usize,
                #[trigger] polls[i],
            ),
    ensures
        total_downloaded(before.segments@) <= total_downloaded(after.segments@),
        r matches Some(Ok(p)) ==> p.transferred == total_downloaded(after.segments@),
{
    assert forall|i: int|
        0 <= i < polls.len() && i < before.segments@.len() implies ((
    #[trigger] polls[i]) matches SegmentPoll::Finished(count)
        ==> before.segments@[i].downloaded <= count) by {
        let seg = before.segments@[i];
        let start = SegmentFetcher { index: i as usize, segment: seg };
        assert(polled_from(seg, i as usize, polls[i]));
        if polls[i] is Finished {
            let (events, status) = choose|events: Seq<FetchEvent>, status: FetchStatus|
                #![trigger run_of(start, events), is_poll_of(status, polls[i])]
                run_of(start, events) == Some(status) && is_poll_of(status, polls[i]);
            lemma_run_never_loses_count(start, events);
        }
    }
    lemma_round_never_loses_progress(before, after, cancelled, polls, since_last_emit_ms, r);
}

/// Completion cleanup. A round that finds every byte transferred ends the
/// attempt as complete and has the state file deleted, and no other round
/// has it deleted; the next start then finds no state and plans anew.
pub proof fn lemma_completion_removes_state(
    before: DownloadState,
    after: DownloadState,
    cancelled: bool,
    polls: Seq<SegmentPoll>,
    since_last_emit_ms: u128,
    r: Result<Progress, DownloadError>,
)
    requires
        round_outcome(before, after, cancelled, polls, since_last_emit_ms, Some(r)),
    ensures
        state_file_action_of(r) == StateFileAction::Remove <==> r is Ok && total_downloaded(
            after.segments@,
        ) >= after.total_size,
        r matches Ok(p) ==> p.completed == (p.transferred >= after.total_size),
{
    lemma_total_nonnegative(after.segments@);
}

/// Pause round-trip. A round that is asked to pause a well-formed plan hands
/// that plan over unchanged for writing: every segment counts at most the
/// bytes of its window, and the counts together are at most the total size.
pub proof fn lemma_pause_keeps_bounds(
    before: DownloadState,
    after: DownloadState,
    polls: Seq<SegmentPoll>,
    since_last_emit_ms: u128,
    r: Result<Progress, DownloadError>,
)
    requires
        before.wf(),
        round_outcome(before, after, true, polls, since_last_emit_ms, Some(r)),
    ensures
        r == Err::<Progress, DownloadError>(DownloadError::Paused),
        state_file_action_of(r) == StateFileAction::Write,
        after == before,
        forall|i: int|
            0 <= i < after.segments@.len() ==> (#[trigger] after.segments@[i]).downloaded
                <= after.segments@[i].span(),
        0 <= total_downloaded(after.segments@) <= after.total_size,
{
    lemma_plan_bounds(before);
}

/// Bounds of a well-formed plan. In a well-formed plan, such as the one that a
/// pause hands over for writing, every segment counts at most the bytes of
/// its window, and the counts together are at most the total size.
pub proof fn lemma_plan_bounds(state: DownloadState)
    requires
        state.wf(),
    ensures
        forall|i: int|
            0 <= i < state.segments@.len() ==> (#[trigger] state.segments@[i]).downloaded
                <= state.segments@[i].span(),
        0 <= total_downloaded(state.segments@) <= state.total_size,
{
    let segs = state.segments@;
    lemma_total_within_chain(segs, state.total_size as int, segs.len() as int);
    assert(segs.take(segs.len() as int) =~= segs);
    lemma_total_nonnegative(segs);
}

/// Sum of the byte counts of the segments; `None` exactly when the sum does
/// not fit in 64 bits.
pub fn sum_downloaded(segs: &Vec<SegmentState>) -> (r: Option<u64>)
    ensures
        match r {
            Some(sum) => sum == total_downloaded(segs@),
            None => total_downloaded(segs@) > u64::MAX,
        },
{
    let mut sum: u64 = 0;
    let mut i: usize = 0;
    while i < segs.len()
        invariant
            i <= segs@.len(),
            sum == total_downloaded(segs@.take(i as int)),
        decreases segs@.len() - i,
    {
        proof {
            lemma_total_of_prefix(segs@, i as int);
            lemma_total_prefix_grows(segs@, i + 1);
        }
        match sum.checked_add(segs[i].downloaded) {
            Some(next) => {
                sum = next;
            },
            None => {
                return None;
            },
        }
        i += 1;
    }
    proof {
        assert(segs@.take(i as int) =~= segs@);
    }
    Some(sum)
}

/// Index of the first failed poll, if any.
fn find_failure(polls: &Vec<SegmentPoll>) -> (r: Option<usize>)
    ensures
        match r {
            Some(k) => fails_first_at(polls@, k as int),
            None => failure_free(polls@, polls@.len() as int),
        },
{
    let mut i: usize = 0;
    while i < polls.len()
        invariant
            i <= polls@.len(),
            failure_free(polls@, i as int),
        decreases polls@.len() - i,
    {
        match &polls[i] {
            SegmentPoll::Failed(_) => {
                return Some(i);
            },
            _ => {},
        }
        i += 1;
    }
    None
}

/// The segments with the polls of the first `k` of them taken in.
fn adopt(segs: &Vec<SegmentState>, polls: &Vec<SegmentPoll>, k: usize) -> (r: Vec<SegmentState>)
    requires
        polls@.len() == segs@.len(),
        k <= segs@.len(),
    ensures
        r@ == adopted_upto(segs@, polls@, k as int),
{
    let mut next: Vec<SegmentState> = Vec::new();
    let mut i: usize = 0;
    while i < segs.len()
        invariant
            polls@.len() == segs@.len(),
            k <= segs@.len(),
            i <= segs@.len(),
            next@.len() == i,
            forall|j: int|
                0 <= j < i ==> #[trigger] next@[j] == adopted_upto(segs@, polls@, k as int)[j],
        decreases segs@.len() - i,
    {
        let seg: SegmentState = segs[i];
        let taken: SegmentState = if i < k {
            match &polls[i] {
                SegmentPoll::Finished(count) => SegmentState {
                    start: seg.start,
                    end: seg.end,
                    downloaded: *count,
                },
                _ => seg,
            }
        } else {
            seg
        };
        next.push(taken);
        i += 1;
    }
    proof {
        assert(next@ =~= adopted_upto(segs@, polls@, k as int));
    }
    next
}

/// What the look at a fetcher finds that stands at `status`: a running one is
/// pending, a finished one gives its count, a failed one its cause.
pub fn poll_of(status: FetchStatus) -> (poll: SegmentPoll)
    ensures
        is_poll_of(status, poll),
{
    match status {
        FetchStatus::Running => SegmentPoll::Pending,
        FetchStatus::Finished(count) => SegmentPoll::Finished(count),
        FetchStatus::Failed(DownloadError::SegmentTransferFailed { index: _, cause }) => {
            SegmentPoll::Failed(cause)
        },
        FetchStatus::Failed(other) => SegmentPoll::Failed(other.message()),
    }
}

/// What becomes of the state file after a round with this result: written on
/// a pause, deleted on completion, left alone otherwise.
pub fn state_file_action(r: &Result<Progress, DownloadError>) -> (action: StateFileAction)
    ensures
        action == state_file_action_of(*r),
{
    match r {
        Ok(p) => {
            if p.completed {
                StateFileAction::Remove
            } else {
                StateFileAction::Keep
            }
        },
        Err(DownloadError::Paused) => StateFileAction::Write,
        Err(_) => StateFileAction::Keep,
    }
}

impl DownloadState {
    /// Bytes transferred so far: the sum of the segments' counts, `None`
    /// exactly when it does not fit in 64 bits. In a well-formed plan it is
    /// there and at most the total size.
    pub fn transferred(&self) -> (r: Option<u64>)
        ensures
            match r {
                Some(sum) => sum == total_downloaded(self.segments@),
                None => total_downloaded(self.segments@) > u64::MAX,
            },
            self.wf() ==> r.is_some() && total_downloaded(self.segments@) <= self.total_size,
    {
        proof {
            if self.wf() {
                lemma_plan_bounds(*self);
            }
        }
        sum_downloaded(&self.segments)
    }

    /// Takes one round of the progress loop; `round_outcome` says what it
    /// does.
    pub fn advance(
        &mut self,
        cancelled: bool,
        polls: &Vec<SegmentPoll>,
        since_last_emit_ms: u128,
    ) -> (r: Option<Result<Progress, DownloadError>>)
        ensures
            round_outcome(*old(self), *final(self), cancelled, polls@, since_last_emit_ms, r),
    {
        if polls.len() != self.segments.len() {
            return None;
        }
        if cancelled {
            return Some(Err(DownloadError::Paused));
        }
        match find_failure(polls) {
            Some(k) => {
                let next: Vec<SegmentState> = adopt(&self.segments, polls, k);
                let cause: String = match &polls[k] {
                    SegmentPoll::Failed(cause) => cause.clone(),
                    _ => unreached(),
                };
                self.segments = next;
                proof {
                    assert(fails_first_at(polls@, k as int));
                    assert(!failure_free(polls@, polls@.len() as int));
                }
                Some(Err(DownloadError::SegmentTransferFailed { index: k, cause }))
            },
            None => {
                let next: Vec<SegmentState> = adopt(&self.segments, polls, polls.len());
                match sum_downloaded(&next) {
                    None => None,
                    Some(transferred) => {
                        self.segments = next;
                        Some(
                            Ok(
                                Progress {
                                    transferred,
                                    emit: since_last_emit_ms >= EMIT_INTERVAL_MS,
                                    completed: transferred >= self.total_size,
                                },
                            ),
                        )
                    },
                }
            },
        }
    }

    /// Takes one round of the progress loop for the attempt that `token`
    /// stops: asks the token whether a pause was requested, and goes on as
    /// `advance` does with that answer. Another thread may fire the token at
    /// any moment, so the round is the one for a pause or the one without.
    pub fn tick(
        &mut self,
        token: &CancellationToken,
        polls: &Vec<SegmentPoll>,
        since_last_emit_ms: u128,
    ) -> (r: Option<Result<Progress, DownloadError>>)
        ensures
            round_outcome(*old(self), *final(self), true, polls@, since_last_emit_ms, r)
                || round_outcome(*old(self), *final(self), false, polls@, since_last_emit_ms, r),
    {
        let cancelled: bool = token.is_cancelled();
        self.advance(cancelled, polls, since_last_emit_ms)
    }
}

} // verus!
