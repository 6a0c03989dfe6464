//! The classification a line of diff input carries when it reaches this
//! crate: the hunk states the renderer distinguishes, plus the metadata
//! states whose styles the policy object also owns.

use vstd::prelude::*;

verus! {

/// Where a line stands in a diff.
#[derive(Clone, Copy, Debug, PartialEq, Eq, Structural)]
pub enum State {
    /// A commit metadata line.
    CommitMeta,
    /// A file metadata line.
    FileMeta,
    /// A hunk header line.
    HunkHeader,
    /// An unchanged line within a hunk.
    HunkZero,
    /// A removed line within a hunk.
    HunkMinus,
    /// An added line within a hunk.
    HunkPlus,
    /// Anything else; no styling decision is defined for it.
    Unknown,
}

} // verus!
