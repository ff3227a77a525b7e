//! The plan of one download: the total size and its partition into segments,
//! which is also what is kept on disk between attempts.

use vstd::prelude::*;
use vstd::string::StringExecFns;
use crate::error::DownloadError;
use crate::segment::SegmentState;

verus! {

/// Number of segments of a plan that is built from a size probe.
pub const DEFAULT_CONCURRENCY: usize = 8;

/// Segment `i` of the plan for `total` bytes in `n` segments: `total / n`
/// bytes each, the last one running to the final byte.
pub open spec fn planned_segment(total: u64, n: usize, i: int) -> SegmentState {
    let part = total as int / n as int;
    SegmentState {
        start: (i * part) as u64,
        end: if i == n - 1 {
            (total - 1) as u64
        } else {
            ((i + 1) * part - 1) as u64
        },
        downloaded: 0,
    }
}

/// The whole plan for `total` bytes in `n` segments.
pub open spec fn planned_segments(total: u64, n: usize) -> Seq<SegmentState> {
    Seq::new(n as nat, |i: int| planned_segment(total, n, i))
}

/// The windows are non-empty and follow one another without gap or overlap,
/// from byte 0 to byte `total - 1`.
pub open spec fn contiguous(segs: Seq<SegmentState>, total: int) -> bool {
    &&& segs.len() > 0
    &&& segs[0].start == 0
    &&& segs[segs.len() - 1].end == total - 1
    &&& forall|i: int| 0 <= i < segs.len() ==> (#[trigger] segs[i]).start <= segs[i].end
    &&& forall|i: int, j: int|
        0 <= i && j == i + 1 && j < segs.len() ==> (#[trigger] segs[i]).end + 1 == (
        #[trigger] segs[j]).start
}

/// Some window holds byte `b`.
pub open spec fn covered(segs: Seq<SegmentState>, b: int) -> bool {
    exists|i: int| 0 <= i < segs.len() && #[trigger] segs[i].covers(b)
}

/// The windows lie inside `[0, total)`, no two of them share a byte (an
/// earlier one ends before a later one starts), and every byte of
/// `[0, total)` is in one of them.
pub open spec fn is_partition(segs: Seq<SegmentState>, total: int) -> bool {
    &&& forall|i: int|
        0 <= i < segs.len() ==> 0 <= (#[trigger] segs[i]).start <= segs[i].end < total
    &&& forall|i: int, j: int|
        0 <= i < j < segs.len() ==> (#[trigger] segs[i]).end < (#[trigger] segs[j]).start
    &&& forall|b: int| 0 <= b < total ==> #[trigger] covered(segs, b)
}

/// No segment counts more bytes than its window holds.
pub open spec fn within_windows(segs: Seq<SegmentState>) -> bool {
    forall|i: int| 0 <= i < segs.len() ==> (#[trigger] segs[i]).downloaded <= segs[i].span()
}

proof fn lemma_chain_ordered(segs: Seq<SegmentState>, total: int, i: int, j: int)
    requires
        contiguous(segs, total),
        0 <= i < j < segs.len(),
    ensures
        segs[i].end < segs[j].start,
    decreases j - i,
{
    if j == i + 1 {
        assert(segs[i].end + 1 == segs[j].start);
    } else {
        lemma_chain_ordered(segs, total, i, j - 1);
        assert(segs[j - 1].end + 1 == segs[j].start);
        assert(segs[j - 1].start <= segs[j - 1].end);
    }
}

proof fn lemma_chain_covers(segs: Seq<SegmentState>, total: int, b: int, k: int)
    requires
        contiguous(segs, total),
        0 <= k < segs.len(),
        segs[k].start <= b < total,
    ensures
        covered(segs, b),
    decreases segs.len() - k,
{
    if b <= segs[k].end {
        assert(segs[k].covers(b));
    } else {
        assert(k < segs.len() - 1);
        assert(segs[k].end + 1 == segs[k + 1].start);
        lemma_chain_covers(segs, total, b, k + 1);
    }
}

/// Windows that follow one another from byte 0 to byte `total - 1` split
/// `[0, total)`: they are pairwise disjoint and leave no byte out.
pub proof fn lemma_contiguous_is_partition(segs: Seq<SegmentState>, total: int)
    requires
        contiguous(segs, total),
    ensures
        is_partition(segs, total),
{
    assert forall|i: int, j: int| 0 <= i < j < segs.len() implies (#[trigger] segs[i]).end < (
    #[trigger] segs[j]).start by {
        lemma_chain_ordered(segs, total, i, j);
    }
    assert forall|i: int| 0 <= i < segs.len() implies 0 <= (#[trigger] segs[i]).start
        <= segs[i].end < total by {
        assert(segs[i].start <= segs[i].end);
        if i < segs.len() - 1 {
            lemma_chain_ordered(segs, total, i, segs.len() - 1);
            assert(segs[segs.len() - 1].start <= segs[segs.len() - 1].end);
        }
    }
    assert forall|b: int| 0 <= b < total implies #[trigger] covered(segs, b) by {
        lemma_chain_covers(segs, total, b, 0);
    }
}

proof fn lemma_part_bounds(total: int, n: int, k: int)
    requires
        1 <= n <= total,
        0 <= k <= n,
    ensures
        total / n >= 1,
        0 <= k * (total / n) <= total,
        k < n ==> (k + 1) * (total / n) == k * (total / n) + total / n,
        k < n ==> k * (total / n) + total / n <= total,
        n * (total / n) + total % n == total,
        0 <= total % n < n,
{
    let part = total / n;
    assert(total == n * part + total % n && 0 <= total % n < n && part >= 1) by (nonlinear_arith)
        requires
            1 <= n <= total,
            part == total / n,
    ;
    assert(0 <= k * part <= n * part) by (nonlinear_arith)
        requires
            0 <= k <= n,
            part >= 1,
    ;
    if k < n {
        assert((k + 1) * part == k * part + part) by (nonlinear_arith);
        assert((k + 1) * part <= n * part) by (nonlinear_arith)
            requires
                0 <= k + 1 <= n,
                part >= 1,
        ;
    }
}

/// Partition completeness. Whenever `total` bytes can be cut into `n`
/// non-empty windows, the planned segments are pairwise disjoint, their union
/// is exactly `[0, total)`, every segment but the last holds `total / n`
/// bytes, the last holds those and the remainder, and nothing counts as
/// fetched yet.
pub proof fn lemma_plan_is_partition(total: u64, n: usize)
    requires
        1 <= n <= total,
    ensures
        planned_segments(total, n).len() == n,
        contiguous(planned_segments(total, n), total as int),
        is_partition(planned_segments(total, n), total as int),
        forall|i: int|
            0 <= i < n - 1 ==> (#[trigger] planned_segments(total, n)[i]).span() == total as int
                / n as int,
        planned_segments(total, n)[n - 1].span() == total as int / n as int + total as int
            % n as int,
        forall|i: int| 0 <= i < n ==> (#[trigger] planned_segments(total, n)[i]).downloaded == 0,
{
    let segs = planned_segments(total, n);
    let part = total as int / n as int;
    assert forall|i: int| 0 <= i < n implies {
        &&& (#[trigger] segs[i]).start == i * part
        &&& segs[i].end == (if i == n - 1 {
            total - 1
        } else {
            (i + 1) * part - 1
        })
        &&& segs[i].start <= segs[i].end
    } by {
        lemma_part_bounds(total as int, n as int, i);
    }
    assert(segs[0].start == 0);
    assert forall|i: int, j: int| 0 <= i && j == i + 1 && j < segs.len() implies (
    #[trigger] segs[i]).end + 1 == (#[trigger] segs[j]).start by {
        assert(segs[i].end == (i + 1) * part - 1);
        assert(segs[j].start == j * part);
    }
    lemma_contiguous_is_partition(segs, total as int);
    lemma_part_bounds(total as int, n as int, n - 1);
    assert forall|i: int| 0 <= i < n - 1 implies (#[trigger] segs[i]).span() == part by {
        lemma_part_bounds(total as int, n as int, i);
    }
}

/// Cuts `[0, total_size)` into `concurrency` segments with nothing fetched.
/// There is a plan exactly when every segment can hold at least one byte.
pub fn plan_segments(total_size: u64, concurrency: usize) -> (r: Option<Vec<SegmentState>>)
    ensures
        match r {
            Some(segs) => {
                &&& 1 <= concurrency <= total_size
                &&& segs@ == planned_segments(total_size, concurrency)
                &&& is_partition(segs@, total_size as int)
            },
            None => !(1 <= concurrency <= total_size),
        },
{
    if concurrency == 0 || concurrency as u64 > total_size {
        return None;
    }
    let n: u64 = concurrency as u64;
    let part: u64 = total_size / n;
    let mut segs: Vec<SegmentState> = Vec::new();
    let mut i: usize = 0;
    while i < concurrency
        invariant
            1 <= concurrency <= total_size,
            n == concurrency,
            part as int == total_size as int / n as int,
            i <= concurrency,
            segs@.len() == i,
            forall|j: int|
                0 <= j < i ==> #[trigger] segs@[j] == planned_segment(total_size, concurrency, j),
        decreases concurrency - i,
    {
        let k: u64 = i as u64;
        proof {
            lemma_part_bounds(total_size as int, n as int, k as int);
        }
        let start: u64 = k * part;
        let end: u64 = if i == concurrency - 1 {
            total_size - 1
        } else {
            start + part - 1
        };
        segs.push(SegmentState { start, end, downloaded: 0 });
        i += 1;
    }
    proof {
        assert(segs@ =~= planned_segments(total_size, concurrency));
        lemma_plan_is_partition(total_size, concurrency);
    }
    Some(segs)
}

/// The plan of a download and, per segment, how much of it is on disk. One
/// such value is kept beside the output file between attempts.
#[derive(Clone, Debug, PartialEq, Eq)]
pub struct DownloadState {
    pub id: String,
    pub url: String,
    pub output: String,
    pub total_size: u64,
    pub concurrency: usize,
    pub segments: Vec<SegmentState>,
}

/// Name of the file that keeps the state for `output`.
pub open spec fn state_file_name(output: Seq<char>) -> Seq<char> {
    output + ".state"@
}

/// The path of the state file for an output path: the path followed by
/// `.state`.
pub fn state_file_for(output: &str) -> (r: String)
    ensures
        r@ == state_file_name(output@),
{
    let mut path = String::from_str(output);
    path.append(".state");
    path
}

impl DownloadState {
    /// There are as many segments as the recorded concurrency, they split
    /// `[0, total_size)` in order, and none counts more than its window.
    pub open spec fn wf(&self) -> bool {
        &&& self.concurrency == self.segments@.len()
        &&& contiguous(self.segments@, self.total_size as int)
        &&& within_windows(self.segments@)
    }

    /// What `fresh` builds from its arguments.
    pub open spec fn is_fresh(
        &self,
        id: String,
        url: String,
        output: String,
        total_size: u64,
        concurrency: usize,
    ) -> bool {
        &&& self.id == id
        &&& self.url == url
        &&& self.output == output
        &&& self.total_size == total_size
        &&& self.concurrency == concurrency
        &&& self.segments@ == planned_segments(total_size, concurrency)
    }

    /// The path of the file that keeps this state: the output path followed by
    /// `.state`.
    pub fn state_file(&self) -> (r: String)
        ensures
            r@ == state_file_name(self.output@),
    {
        state_file_for(self.output.as_str())
    }

    /// A plan with nothing fetched, for `total_size` bytes in `concurrency`
    /// segments. `None` exactly when no segment could hold a byte.
    pub fn fresh(
        id: String,
        url: String,
        output: String,
        total_size: u64,
        concurrency: usize,
    ) -> (r: Option<DownloadState>)
        ensures
            match r {
                Some(s) => {
                    &&& 1 <= concurrency <= total_size
                    &&& s.is_fresh(id, url, output, total_size, concurrency)
                    &&& s.wf()
                },
                None => !(1 <= concurrency <= total_size),
            },
    {
        match plan_segments(total_size, concurrency) {
            Some(segments) => {
                proof {
                    lemma_plan_is_partition(total_size, concurrency);
                }
                Some(DownloadState { id, url, output, total_size, concurrency, segments })
            },
            None => None,
        }
    }

    /// Builds the plan from the answer of the size probe, in
    /// `DEFAULT_CONCURRENCY` segments. A probe without a length is the error
    /// `MissingContentLength`. A resource too small to give every segment a
    /// byte has no plan: the answer is `None`.
    pub fn from_probe(id: String, url: String, output: String, content_length: Option<u64>) -> (r:
        Option<Result<DownloadState, DownloadError>>)
        ensures
            match content_length {
                None => r == Some(
                    Err::<DownloadState, DownloadError>(DownloadError::MissingContentLength),
                ),
                Some(total) => if total >= DEFAULT_CONCURRENCY {
                    r matches Some(Ok(s)) && s.is_fresh(
                        id,
                        url,
                        output,
                        total,
                        DEFAULT_CONCURRENCY,
                    ) && s.wf()
                } else {
                    r.is_none()
                },
            },
    {
        match content_length {
            None => Some(Err(DownloadError::MissingContentLength)),
            Some(total) => {
                match DownloadState::fresh(id, url, output, total, DEFAULT_CONCURRENCY) {
                    Some(s) => Some(Ok(s)),
                    None => None,
                }
            },
        }
    }

    /// The state an attempt starts from. A state found on disk is taken as it
    /// is, whatever the probe would say; without one the plan is built from
    /// the probe, as `from_probe` does.
    pub fn resume_or_plan(
        persisted: Option<DownloadState>,
        id: String,
        url: String,
        output: String,
        content_length: Option<u64>,
    ) -> (r: Option<Result<DownloadState, DownloadError>>)
        ensures
            match (persisted, content_length) {
                (Some(kept), _) => r == Some(Ok::<DownloadState, DownloadError>(kept)),
                (None, None) => r == Some(
                    Err::<DownloadState, DownloadError>(DownloadError::MissingContentLength),
                ),
                (None, Some(total)) => if total >= DEFAULT_CONCURRENCY {
                    r matches Some(Ok(s)) && s.is_fresh(
                        id,
                        url,
                        output,
                        total,
                        DEFAULT_CONCURRENCY,
                    ) && s.wf()
                } else {
                    r.is_none()
                },
            },
    {
        match persisted {
            Some(kept) => Some(Ok(kept)),
            None => DownloadState::from_probe(id, url, output, content_length),
        }
    }

    /// Checks the plan's invariant at run time.
    pub fn is_well_formed(&self) -> (r: bool)
        ensures
            r == self.wf(),
    {
        let n: usize = self.segments.len();
        if n == 0 || self.concurrency != n || self.total_size == 0 {
            return false;
        }
        if self.segments[0].start != 0 || self.segments[n - 1].end != self.total_size - 1 {
            return false;
        }
        let mut i: usize = 0;
        while i < n
            invariant
                n == self.segments@.len(),
                i <= n,
                forall|j: int|
                    0 <= j < i ==> (#[trigger] self.segments@[j]).start <= self.segments@[j].end,
                forall|j: int|
                    0 <= j < i ==> (#[trigger] self.segments@[j]).downloaded
                        <= self.segments@[j].span(),
                forall|j: int, k: int|
                    0 <= j && k == j + 1 && k < i ==> (#[trigger] self.segments@[j]).end + 1 == (
                    #[trigger] self.segments@[k]).start,
            decreases n - i,
        {
            let seg: SegmentState = self.segments[i];
            if seg.start > seg.end {
                return false;
            }
            if seg.downloaded > 0 && seg.downloaded - 1 > seg.end - seg.start {
                return false;
            }
            if i > 0 {
                let prev: SegmentState = self.segments[i - 1];
                if prev.end == u64::MAX || prev.end + 1 != seg.start {
                    assert(self.segments@[i - 1].end + 1 != self.segments@[i as int].start);
                    return false;
                }
            }
            i += 1;
        }
        true
    }
}

} // verus!
