//! Failure taxonomy shared by all recognizers.

use vstd::prelude::*;

verus! {

/// How a recognizer fails. The distinction matters to callers: an
/// [`Unmatched`](LexError::Unmatched) failure is local and recoverable (the
/// construct simply does not start here, so the caller may try the next
/// alternative), while every other variant is a hard, structural failure that
/// must propagate instead of being silently swallowed as "construct absent".
#[derive(Clone, Copy, Debug, PartialEq, Eq, Structural)]
pub enum LexError {
    /// The input at the current position does not start the expected
    /// construct at all. Recoverable: the caller may try an alternative.
    Unmatched,
    /// The construct began matching (a separator or tag marker was consumed)
    /// but could not complete. Hard failure: the source is malformed, and
    /// callers must not fall back to "optional part absent".
    Malformed,
    /// A digit run decodes to a value exceeding the supported integer width.
    /// Never silently truncated or wrapped.
    Overflow,
    /// A comment was opened but its terminator never occurs before the end of
    /// the input.
    Unterminated,
}

impl LexError {
    /// Only an unmatched construct may be recovered from by trying the next
    /// alternative; every other failure is hard.
    pub open spec fn spec_recoverable(self) -> bool {
        self is Unmatched
    }

    /// Tells a caller whether it may try the next alternative after this
    /// failure, or must propagate it.
    pub fn is_recoverable(&self) -> (b: bool)
        ensures
            b == self.spec_recoverable(),
    {
        match self {
            LexError::Unmatched => true,
            _ => false,
        }
    }
}

} // verus!
