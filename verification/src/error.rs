//! The ways in which a download attempt ends without a complete file, and the
//! text under which each of them reaches the caller.

use vstd::prelude::*;
use vstd::string::StringExecFns;
use crate::decimal::{append_decimal, decimal_digits};

verus! {

/// Why an attempt stopped. A pause travels the same way as a fault and is told
/// apart by its own variant.
#[derive(Clone, Debug, PartialEq, Eq)]
pub enum DownloadError {
    /// The size probe reported no length, so no plan can be built.
    MissingContentLength,
    /// The transport or the file write of one segment failed.
    SegmentTransferFailed { index: usize, cause: String },
    /// Cancellation was requested; the attempt can be resumed later.
    Paused,
}

/// The text for a failed segment: `segment <index>: <cause>`.
pub open spec fn failure_text(index: usize, cause: Seq<char>) -> Seq<char> {
    "segment "@ + decimal_digits(index as nat) + ": "@ + cause
}

/// The text for a fault of the surroundings: `fault: <cause>`.
pub open spec fn fault_text(cause: Seq<char>) -> Seq<char> {
    "fault: "@ + cause
}

/// The text under which each error reaches the caller.
pub open spec fn message_text(e: DownloadError) -> Seq<char> {
    match e {
        DownloadError::MissingContentLength => "无 Content-Length"@,
        DownloadError::SegmentTransferFailed { index, cause } => failure_text(index, cause@),
        DownloadError::Paused => "Paused"@,
    }
}

/// Only a pause reads `Paused`. The text of a failed segment starts with
/// `segment`, whatever its cause says, the text of a fault of the
/// surroundings with `fault`, and the text of a missing length is another
/// one, so no fault can be taken for an intended stop.
pub proof fn lemma_only_a_pause_reads_paused(e: DownloadError, cause: Seq<char>)
    ensures
        message_text(e) == "Paused"@ <==> e == DownloadError::Paused,
        fault_text(cause) != "Paused"@,
{
    reveal_strlit("Paused");
    reveal_strlit("segment ");
    reveal_strlit("fault: ");
    reveal_strlit("无 Content-Length");
    assert("Paused"@[0] == 'P');
    assert(fault_text(cause)[0] == 'f');
    match e {
        DownloadError::MissingContentLength => {
            assert(message_text(e).len() != "Paused"@.len());
        },
        DownloadError::SegmentTransferFailed { index, cause } => {
            assert(message_text(e)[0] == 's');
        },
        DownloadError::Paused => {},
    }
}

impl DownloadError {
    /// Whether this is the intentional stop rather than a fault.
    pub fn is_pause(&self) -> (r: bool)
        ensures
            r == (*self == DownloadError::Paused),
    {
        match self {
            DownloadError::Paused => true,
            _ => false,
        }
    }

    /// The human-readable message: the literal `Paused` for a pause and for
    /// nothing else, and for a failed segment its index and its cause.
    pub fn message(&self) -> (r: String)
        ensures
            r@ == message_text(*self),
            r@ == "Paused"@ <==> *self == DownloadError::Paused,
    {
        proof {
            lemma_only_a_pause_reads_paused(*self, Seq::empty());
        }
        match self {
            DownloadError::MissingContentLength => String::from_str("无 Content-Length"),
            DownloadError::SegmentTransferFailed { index, cause } => {
                let mut text = String::from_str("segment ");
                append_decimal(&mut text, *index as u64);
                text.append(": ");
                text.append(cause.as_str());
                text
            },
            DownloadError::Paused => String::from_str("Paused"),
        }
    }
}

/// The message for a fault that is none of the engine's own errors, such as
/// a state file that cannot be written. It never reads `Paused`.
pub fn fault_message(cause: &str) -> (r: String)
    ensures
        r@ == fault_text(cause@),
        r@ != "Paused"@,
{
    proof {
        lemma_only_a_pause_reads_paused(DownloadError::Paused, cause@);
    }
    let mut text = String::from_str("fault: ");
    text.append(cause);
    text
}

/// Reduces the end of an attempt to what crosses the boundary: nothing on
/// success, the error's message otherwise. The message is the literal
/// `Paused` exactly when the attempt was paused.
pub fn describe_outcome(outcome: Result<(), DownloadError>) -> (r: Result<(), String>)
    ensures
        outcome.is_ok() <==> r.is_ok(),
        outcome matches Err(e) ==> r matches Err(text) && text@ == message_text(e),
        r matches Err(text) ==> (text@ == "Paused"@ <==> outcome == Err::<(), DownloadError>(
            DownloadError::Paused,
        )),
{
    match outcome {
        Ok(()) => Ok(()),
        Err(e) => Err(e.message()),
    }
}

} // verus!
