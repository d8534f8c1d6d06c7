//! The failure modes of saving and loading a board archive.

use vstd::prelude::*;

verus! {

/// Everything that can go wrong while saving or loading a board archive.
///
/// A missing media *source* file during a save is deliberately not here: such
/// an entry is skipped with a diagnostic and the save still succeeds.
#[derive(Debug)]
pub enum ArchiveError {
    /// The user dismissed the file-selection dialog.  A distinct non-success
    /// outcome rather than a failure.
    Cancelled,
    /// Creating, opening, reading or writing the container file failed; the
    /// underlying cause is kept in the message.
    IoError(String),
    /// The container cannot be parsed as a board archive, or the required
    /// `board.json` entry is missing.
    FormatError(String),
    /// The session-state lock could not be acquired.  Non-fatal for an
    /// otherwise successful save or load: only remembering the path fails.
    LockError,
}

impl ArchiveError {
    /// A human-readable description, for surfacing to the caller.
    pub fn message(&self) -> (r: String)
        ensures
            self is Cancelled ==> r@ == "user cancelled file dialog"@,
            self matches ArchiveError::IoError(m) ==> r@ == "I/O error: "@ + m@,
            self matches ArchiveError::FormatError(m) ==> r@ == "not a valid board archive: "@
                + m@,
            self is LockError ==> r@ == "failed to lock session state"@,
    {
        match self {
            ArchiveError::Cancelled => String::from_str("user cancelled file dialog"),
            ArchiveError::IoError(m) => {
                let mut r = String::from_str("I/O error: ");
                r.append(m.as_str());
                r
            },
            ArchiveError::FormatError(m) => {
                let mut r = String::from_str("not a valid board archive: ");
                r.append(m.as_str());
                r
            },
            ArchiveError::LockError => String::from_str("failed to lock session state"),
        }
    }
}

} // verus!
