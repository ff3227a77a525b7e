//! One byte window of a resource and how far it has been fetched.

use vstd::prelude::*;
use vstd::string::StringExecFns;
use crate::decimal::{append_decimal, decimal_digits};

verus! {

/// A contiguous window of the resource, both ends inclusive, together with the
/// number of its leading bytes that are already on disk.
#[derive(Clone, Copy, Debug, PartialEq, Eq, Structural)]
pub struct SegmentState {
    pub start: u64,
    pub end: u64,
    pub downloaded: u64,
}

/// The value of a range header that asks for the bytes from `first` to `last`,
/// both inclusive.
pub open spec fn range_text(first: u64, last: u64) -> Seq<char> {
    "bytes="@ + decimal_digits(first as nat) + "-"@ + decimal_digits(last as nat)
}

/// The value of a range header that asks for the bytes from `first` to `last`,
/// both inclusive: `bytes=<first>-<last>`.
pub fn range_header_value(first: u64, last: u64) -> (r: String)
    ensures
        r@ == range_text(first, last),
{
    let mut text = String::from_str("bytes=");
    append_decimal(&mut text, first);
    text.append("-");
    append_decimal(&mut text, last);
    text
}

impl SegmentState {
    /// Number of bytes in the window.
    pub open spec fn span(self) -> int {
        self.end - self.start + 1
    }

    /// The window is not empty and no more than the window has been fetched.
    pub open spec fn wf(self) -> bool {
        &&& self.start <= self.end
        &&& self.downloaded <= self.span()
    }

    /// Whether byte offset `b` of the resource lies in the window.
    pub open spec fn covers(self, b: int) -> bool {
        self.start <= b <= self.end
    }

    /// Offset of the first byte that is still missing.
    pub open spec fn resume_point(self) -> int {
        self.start + self.downloaded
    }

    /// Whether byte offset `b` is in the range that the segment asks for.
    pub open spec fn asks_for(self, b: int) -> bool {
        self.resume_point() <= b <= self.end
    }

    /// The offset at which fetching and writing continue: `start + downloaded`.
    /// `None` exactly when that offset does not fit in 64 bits.
    pub fn resume_offset(&self) -> (r: Option<u64>)
        ensures
            match r {
                Some(offset) => offset == self.resume_point(),
                None => self.resume_point() > u64::MAX,
            },
    {
        self.start.checked_add(self.downloaded)
    }

    /// The range header for what is still missing: the bytes from
    /// `start + downloaded` to `end`. Nothing before the resume point is asked
    /// for again. `None` exactly when the resume point does not fit in 64 bits.
    pub fn range_header(&self) -> (r: Option<String>)
        ensures
            match r {
                Some(text) => self.resume_point() <= u64::MAX && text@ == range_text(
                    self.resume_point() as u64,
                    self.end,
                ),
                None => self.resume_point() > u64::MAX,
            },
    {
        match self.resume_offset() {
            Some(first) => Some(range_header_value(first, self.end)),
            None => None,
        }
    }
}

} // verus!
