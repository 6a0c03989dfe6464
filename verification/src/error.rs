//! The unrecoverable errors that rendering can surface. Both indicate a
//! broken collaborator contract, not bad input: the caller must not swallow
//! them.

use vstd::prelude::*;

verus! {

/// Why a render was aborted.
#[derive(Debug, PartialEq, Eq)]
pub enum PaintError {
    /// The syntax and diff partitions of one line disagree about how many
    /// characters the line holds.
    SectionLengthMismatch { syntax_len: usize, diff_len: usize },
    /// The syntax and diff partitions of one line disagree about the
    /// character at this position.
    SectionCharMismatch { position: usize, syntax_char: char, diff_char: char },
    /// A line-number template does not hold the placeholder exactly once.
    InvalidLineNumberFormat { format: String },
}

} // verus!
