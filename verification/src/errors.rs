//! Error types of the diffing engine and of the storage protocol.

use vstd::prelude::*;

verus! {

/// A failure of the diffing or plan-building engine.  Every variant marks
/// a caller mistake that must stay visible; none is silently coerced.
#[derive(Clone, Copy, PartialEq, Eq, Structural, Debug)]
pub enum DiffError {
    /// Two entities with different identities were diffed against each
    /// other.
    IdentityMismatch,
    /// After excluding detached and freshly attached children, the
    /// remaining old and new children cannot be paired one to one: the
    /// caller most likely omitted the identifier of a child it intended
    /// to modify.
    PairingCardinalityMismatch,
    /// Modifying a value-identity tag in place is not supported; a
    /// changed tag value is represented as detach-old plus attach-new.
    UnsupportedModification,
}

/// A failure reported by the storage backend while a plan was executed.
/// The executor around this library builds one from the backend's own
/// error and hands it back to callers unchanged.
#[derive(Clone, PartialEq, Debug)]
pub struct BackendError {
    /// Human-readable description carried over from the backend.
    pub message: String,
}

} // verus!
