//! The ways in which an input can be rejected.
use vstd::prelude::*;

verus! {

/// Why a request was rejected. Every rejection happens before any buffer is
/// allocated or written, so a caller never sees a partly filled result.
#[derive(Debug, Clone, Copy, PartialEq, Eq, Structural)]
pub enum FractalError {
    /// The grid has cells, and more of them than one allocation can hold. A
    /// grid without cells is never rejected for its extents.
    InvalidDimension,
    /// The cutoff is zero, so there is no valid iteration count to report.
    InvalidCutoff,
    /// The colour table has no entries to look up.
    EmptyColorTable,
}

impl FractalError {
    /// The text of [`FractalError::message`] as a sequence of characters.
    pub open spec fn message_text(self) -> Seq<char> {
        match self {
            FractalError::InvalidDimension => "grid dimensions are too large to allocate"@,
            FractalError::InvalidCutoff => "cutoff must be at least 1"@,
            FractalError::EmptyColorTable => "color table must not be empty"@,
        }
    }

    /// A short description of the rejection, fit for showing to a user.
    pub fn message(&self) -> (text: &'static str)
        ensures
            text@ == self.message_text(),
    {
        match self {
            FractalError::InvalidDimension => "grid dimensions are too large to allocate",
            FractalError::InvalidCutoff => "cutoff must be at least 1",
            FractalError::EmptyColorTable => "color table must not be empty",
        }
    }
}

} // verus!
