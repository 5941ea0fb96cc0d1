use vstd::prelude::*;

verus! {

/// Why a record was rejected when it was constructed.
#[derive(Debug, PartialEq, Eq, Structural, Clone, Copy)]
pub enum ValidationError {
    /// The entry's path was not valid text.
    InvalidPath,
    /// The timestamp carried no time zone name.
    MissingTimeZone,
    /// The time zone name did not resolve against the zone database.
    UnresolvableTimeZone,
    /// The instant lies outside the representable range.
    InstantOutOfRange,
}

/// Errors surfaced by the storage layer to its callers.
#[derive(Debug, PartialEq, Eq, Structural, Clone, Copy)]
pub enum StoreError {
    /// A malformed input record was rejected before entering any buffer.
    Validation(ValidationError),
    /// The backend could not be opened or created at the given location.
    BackendUnavailable,
    /// A flush's atomic commit failed; the buffered batch is retained.
    CommitFailure,
    /// The requested ordering key is not wired to a stored column.
    UnsupportedOrderKey,
}

} // verus!
