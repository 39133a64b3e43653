//! The failure kinds of one changelog run. None is recoverable at the
//! point of occurrence: the run aborts with the kind's message.

use vstd::prelude::*;

verus! {

/// The terminal failures of a run.
#[derive(Clone, Copy, PartialEq, Eq, Structural, Debug)]
pub enum ChangelogError {
    /// The required deployment index does not exist in the history.
    NoBaseline,
    /// A page of the comparison could not be retrieved; pages already
    /// accumulated are discarded.
    RangeFetchFailed,
    /// The fixed pattern failed to compile at startup. The matcher this
    /// library builds cannot fail that way, so nothing in it produces
    /// this kind; it stands for the boundary that treats a bad pattern
    /// as a fatal configuration error.
    PatternInitFailed,
}

/// The user-facing message of each failure kind.
pub open spec fn error_message(e: ChangelogError) -> Seq<char> {
    match e {
        ChangelogError::NoBaseline => "Previous deployment does not exist."@,
        ChangelogError::RangeFetchFailed => "Cannot fetch commits since last deployment from GitHub API."@,
        ChangelogError::PatternInitFailed => "Could not construct matcher from regular expression."@,
    }
}

impl ChangelogError {
    /// The human-readable message surfaced at the invoking boundary.
    pub fn message(&self) -> (r: &'static str)
        ensures
            r@ == error_message(*self),
    {
        match self {
            ChangelogError::NoBaseline => "Previous deployment does not exist.",
            ChangelogError::RangeFetchFailed => "Cannot fetch commits since last deployment from GitHub API.",
            ChangelogError::PatternInitFailed => "Could not construct matcher from regular expression.",
        }
    }
}

} // verus!
