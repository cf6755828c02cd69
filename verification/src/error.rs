//! What can go wrong in and around the editing core.

use vstd::prelude::*;

verus! {

/// The failures that the core and its collaborators report.
#[derive(Clone, Debug, PartialEq, Eq)]
pub enum EditorError {
    /// A location does not lie in the text; the caller broke an invariant.
    OutOfBounds,
    /// A loader or saver failed; `kind` is handed through as it came.
    IoError { kind: String },
    /// The user closed a dialog without choosing.
    Cancelled,
}

} // verus!
