use vstd::prelude::*;

verus! {

/// Kinds of failure that room operations report to the requesting client.
#[derive(Clone, Copy, Debug, PartialEq, Eq, Structural)]
pub enum ErrorKind {
    /// Authorization or policy denial.
    Forbidden,
    /// Malformed identifier, alias or state key.
    InvalidParam,
    /// Identifier or alias collision.
    RoomInUse,
    /// Requested room version is not supported here.
    UnsupportedRoomVersion,
    /// Appservice namespace violation.
    Exclusive,
    /// Content that cannot be canonicalized or validated.
    BadJson,
    /// Forbidden-name policy.
    Unknown,
    /// The requested event does not exist.
    NotFound,
    /// Stored data breaks an invariant (for instance a room without a create event).
    BadDatabase,
}

} // verus!
