//! The failures a renaming run can encounter.

use vstd::prelude::*;

verus! {

/// Everything that can go wrong while processing files.
///
/// All variants except [`RenameError::NoInput`] are scoped to a single file:
/// one file's failure never prevents later files from being attempted.
/// `NoInput` is a startup-level error — a run with no input files at all
/// cannot proceed.
#[derive(Debug, PartialEq, Eq)]
pub enum RenameError {
    /// The path has no usable filename component (empty, or ends in a
    /// separator).
    NotAFile,
    /// The file's metadata could not be read at all: the file is missing or
    /// inaccessible. The file is skipped.
    MetadataUnavailable,
    /// A configured script path did not exist when the script list was
    /// resolved at startup; the script is dropped from the run with a
    /// warning. Carries the missing path.
    ScriptNotFound(String),
    /// A script was present but exited with a non-zero status at run time;
    /// processing of the current file is aborted. Carries the script path.
    ScriptExecutionFailed(String),
    /// The template referenced a fragment key that was never written; the
    /// file's rename is aborted. Carries the unresolved key.
    UnresolvedPlaceholder(String),
    /// The final rename operation failed; the file is left untouched.
    RenameFailed,
    /// No input files were supplied at startup; the whole run is aborted.
    NoInput,
}

} // verus!
