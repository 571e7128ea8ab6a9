//! The ways in which an operation can fail.

use vstd::prelude::*;

verus! {

/// Why an operation was rejected. Every error ends the call.
#[derive(Clone, Copy, Debug, PartialEq, Eq, Structural)]
pub enum SocialError {
    /// The namespace tag is unknown, or the request is malformed: an account
    /// that the operation needs was not supplied.
    InvalidArgument,
    /// The address that the caller declared is not the derived one.
    InvalidTarget,
    /// A record already exists at the address that was to be allocated.
    AlreadyInitialized,
    /// The record has no room for what was to be added.
    CapacityExceeded,
    /// The operation needs a record that was never created.
    RecordAbsent,
    /// The stored bytes are not a record of the expected kind.
    CorruptRecord,
}

} // verus!
