//! What one attempt to read a record can yield.

use vstd::prelude::*;

verus! {

/// Status with which the engine reports that a record was read.
pub const STATUS_SUCCESS: i32 = 0;

/// Status with which the engine reports that the stream has no record left.
pub const STATUS_END_OF_STREAM: i32 = -1;

/// The three outcomes of one read attempt.
#[derive(Clone, Copy, Debug, PartialEq, Eq, Structural)]
pub enum ReadOutcome {
    /// A record was decoded.
    Success,
    /// The stream ended cleanly before another record.
    EndOfStream,
    /// The engine could not decode a record at this position.
    Invalid,
}

/// Why a read attempt handed out no record.
#[derive(Clone, Copy, Debug, PartialEq, Eq, Structural)]
pub enum ReadError {
    /// Reserved for an engine that tells a cut-off record from a corrupt one.
    /// No status is classified as this today.
    Truncated,
    /// The data at this position is corrupt.
    Invalid,
    /// The stream has ended; this is the normal way for a scan to finish.
    NoMoreRecord,
}

impl ReadOutcome {
    /// The outcome that an engine status stands for.
    pub open spec fn spec_from_status(status: i32) -> ReadOutcome {
        if status == STATUS_SUCCESS {
            ReadOutcome::Success
        } else if status == STATUS_END_OF_STREAM {
            ReadOutcome::EndOfStream
        } else {
            ReadOutcome::Invalid
        }
    }

    /// The result that a caller of a read sees for this outcome.
    pub open spec fn spec_into_result(self) -> Result<(), ReadError> {
        match self {
            ReadOutcome::Success => Ok(()),
            ReadOutcome::EndOfStream => Err(ReadError::NoMoreRecord),
            ReadOutcome::Invalid => Err(ReadError::Invalid),
        }
    }

    /// Classifies an engine status: `0` is success, `-1` is the end of the
    /// stream, every other value is an invalid record.
    pub fn from_status(status: i32) -> (outcome: ReadOutcome)
        ensures
            outcome == Self::spec_from_status(status),
    {
        if status == STATUS_SUCCESS {
            ReadOutcome::Success
        } else if status == STATUS_END_OF_STREAM {
            ReadOutcome::EndOfStream
        } else {
            ReadOutcome::Invalid
        }
    }

    /// Turns the outcome into the result of a read.
    pub fn into_result(self) -> (result: Result<(), ReadError>)
        ensures
            result == self.spec_into_result(),
    {
        match self {
            ReadOutcome::Success => Ok(()),
            ReadOutcome::EndOfStream => Err(ReadError::NoMoreRecord),
            ReadOutcome::Invalid => Err(ReadError::Invalid),
        }
    }
}

} // verus!
