//! Recoverable deletion, through the `trash` crate.

use vstd::prelude::*;

verus! {

/// Relies on trash::delete: moves the path to the system trash rather than
/// deleting it permanently. Touches the disk and the user's trash directory,
/// so nothing is stated of the outcome.
#[verifier::external_body]
pub(crate) fn trash_delete(path: &str) -> (r: Result<(), String>) {
    match trash::delete(path) {
        Ok(()) => Ok(()),
        Err(e) => Err(e.to_string()),
    }
}

} // verus!
