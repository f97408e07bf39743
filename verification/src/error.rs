//! The error taxonomy shared by the document store and both caches.

use vstd::prelude::*;

verus! {

/// Why a store or cache operation failed.
///
/// - `NotFound`: a referenced entity or sub-index is absent.
/// - `Conflict`: an identity or uniqueness violation on a create or insert.
/// - `BadRequest`: a malformed caller-supplied identifier.
/// - `ServiceUnavailable`: an external provider or network failure; the
///   upstream message is passed through.
/// - `InternalError`: a local I/O or persistence failure.
#[derive(Debug, Clone)]
pub enum StoreError {
    NotFound,
    Conflict,
    BadRequest,
    ServiceUnavailable(String),
    InternalError,
}

} // verus!
