use vstd::prelude::*;

verus! {

/// The error kinds surfaced by the synchronization routine and the access
/// layer. Synchronization failures abort without partial mutation; access
/// failures propagate to the boundary unchanged.
#[derive(Clone, Copy, Debug, PartialEq, Eq, Structural)]
pub enum ServiceError {
    /// The remote source could not be reached (network or transport failure).
    RemoteUnavailable,
    /// A payload did not match the expected shape.
    DecodeError,
    /// No cached row matches the requested identifier.
    NotFound,
    /// A local statement failed; the cache is left as it was.
    StoreError,
}

} // verus!
