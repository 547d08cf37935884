//! The ways in which an analysis fails.

use vstd::prelude::*;

verus! {

/// Why an analysis could not be made. None of these is retried, and none
/// leaves a partial result behind.
#[derive(Debug)]
pub enum CliperError {
    /// The bytes handed in are not an archive that can be read. Holds the
    /// reader's own description.
    ArchiveOpenError(String),
    /// One entry of the archive could not be read. Holds the entry's
    /// position.
    ArchiveEntryError(usize),
    /// Sizes add up to more than can be counted.
    SizeOverflow,
    /// The path pattern of a filter is not a regular expression that can be
    /// used. Holds the compiler's own description.
    RegexCompileError(String),
}

} // verus!
