//! The engine's error taxonomy and its translation to protocol error codes.

use vstd::prelude::*;

verus! {

/// Internal failure of a single operation. Every error is terminal for the
/// operation that raised it; nothing is retried.
#[derive(Debug, Clone, Copy, PartialEq, Eq, Structural)]
pub enum FsError {
    /// A handle or a composed path does not resolve to any tracked entry.
    NotFound,
    /// The backing entry is neither a regular file nor a directory.
    UnsupportedEntryKind,
    /// A host filesystem operation failed.
    IoError,
}

/// The protocol-level error carried in a reply. The surrounding program maps
/// these to the host protocol's error numbers.
#[derive(Debug, Clone, Copy, PartialEq, Eq, Structural)]
pub enum ProtocolError {
    /// Replied as "no such entry".
    NoSuchEntry,
    /// Replied as "I/O error".
    IoFailure,
}

/// How an internal error is surfaced to the protocol: unresolved handles and
/// unsupported entry kinds are both invisible ("no such entry"), host I/O
/// failures are reported as such.
pub open spec fn protocol_error_spec(e: FsError) -> ProtocolError {
    match e {
        FsError::NotFound => ProtocolError::NoSuchEntry,
        FsError::UnsupportedEntryKind => ProtocolError::NoSuchEntry,
        FsError::IoError => ProtocolError::IoFailure,
    }
}

/// The one translation step the dispatcher performs on a failed operation.
pub fn protocol_error_of(e: FsError) -> (r: ProtocolError)
    ensures
        r == protocol_error_spec(e),
{
    match e {
        FsError::NotFound => ProtocolError::NoSuchEntry,
        FsError::UnsupportedEntryKind => ProtocolError::NoSuchEntry,
        FsError::IoError => ProtocolError::IoFailure,
    }
}

} // verus!
