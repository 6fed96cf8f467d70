//! The ways in which decoding can fail.

use vstd::prelude::*;

verus! {

/// A fatal decoding failure. Decoding never recovers: the first failure ends it.
#[derive(Debug, Clone, Copy, PartialEq, Eq, Structural)]
pub enum DecodeError {
    /// A read would have gone past the end of the input.
    UnexpectedEndOfInput,
    /// A frame's leading byte (first field) selects no event; the second field
    /// is the byte offset of that frame in the input that was handed in.
    UnknownEventType(u8, usize),
    /// A track header's type byte is neither `0x00` nor `0x80`.
    InvalidTrackType(u8),
    /// A track header's mute byte is neither `0x00` nor `0x01`.
    InvalidMuteFlag(u8),
    /// The input ended while a comment or an exclusive message was being collected.
    UnterminatedContinuation,
    /// A continuation frame came where no event was being collected, or another
    /// frame interrupted an event that was.
    MisplacedContinuationFrame,
}

impl DecodeError {
    /// The same failure, seen from an input that starts `by` bytes earlier.
    pub open spec fn spec_shifted(self, by: int) -> DecodeError {
        match self {
            DecodeError::UnknownEventType(tag, offset) => DecodeError::UnknownEventType(
                tag,
                (offset + by) as usize,
            ),
            other => other,
        }
    }

    /// Whether the failure points at a byte before `len`.
    pub open spec fn within(self, len: int) -> bool {
        self matches DecodeError::UnknownEventType(_, offset) ==> offset < len
    }

    /// Moves the reported offset `by` bytes forward.
    pub fn shifted(self, by: usize) -> (r: DecodeError)
        requires
            self matches DecodeError::UnknownEventType(_, offset) ==> offset + by <= usize::MAX,
        ensures
            r == self.spec_shifted(by as int),
    {
        match self {
            DecodeError::UnknownEventType(tag, offset) => DecodeError::UnknownEventType(
                tag,
                offset + by,
            ),
            other => other,
        }
    }
}

} // verus!
