//! Internal-consistency failures: conditions the core did not cause but must
//! surface, rather than terminating the process inside library code.

use vstd::prelude::*;

verus! {

/// A failure that does not stem from the fed program itself: either a
/// lower-level I/O failure reported by a collaborator (carried as text), or
/// an internal-consistency violation of the core's own structures.
#[derive(Clone, Debug, PartialEq, Eq)]
pub enum InternalError {
    /// An I/O failure surfaced by a collaborator, stringified.
    IOError(String),
    /// A dictionary insertion claimed success but the word was not found.
    WordInsertionFailed,
    /// A resolved word has a kind this core does not yet execute
    /// (sequences and constants are declared but reserved).
    WordKindNotSupported,
    /// An attempt to activate a vocabulary that was never registered.
    UnknownVocabulary,
}

} // verus!
