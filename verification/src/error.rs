//! The reasons for which a bounded string refuses a text.

use vstd::prelude::*;

verus! {

/// Why a construction or a mutation was refused.
#[derive(Debug, Clone, Copy, PartialEq, Eq, Structural)]
pub enum BoundedStrError {
    /// The logical length is below the lower bound.
    TooShort,
    /// The logical length is above the upper bound.
    TooLong,
    /// The bytes do not fit the capacity that is available to them.
    TooManyBytes,
    /// The format policy rejected the text.
    InvalidContent,
    /// The bytes left by a mutation are not an admissible text.
    MutationFailed,
}

impl BoundedStrError {
    /// The sentence that describes the error.
    pub open spec fn spec_message(self) -> Seq<char> {
        match self {
            BoundedStrError::TooShort => "string too short"@,
            BoundedStrError::TooLong => "string too long"@,
            BoundedStrError::TooManyBytes => "too many bytes for buffer"@,
            BoundedStrError::InvalidContent => "invalid content format"@,
            BoundedStrError::MutationFailed => "mutation failed"@,
        }
    }

    /// A short sentence for a reader, one per error.
    pub fn message(&self) -> (m: &'static str)
        ensures
            m@ == self.spec_message(),
    {
        match self {
            BoundedStrError::TooShort => "string too short",
            BoundedStrError::TooLong => "string too long",
            BoundedStrError::TooManyBytes => "too many bytes for buffer",
            BoundedStrError::InvalidContent => "invalid content format",
            BoundedStrError::MutationFailed => "mutation failed",
        }
    }
}

} // verus!
