//! The failure taxonomy shared by every store in the library.

use vstd::prelude::*;

verus! {

/// Why an operation was refused.
///
/// Every fallible operation reports one of these kinds synchronously; no
/// operation is retried internally.
#[derive(Clone, Copy, Debug, PartialEq, Eq, Structural)]
pub enum OpError {
    /// A referenced device, session, entry, conflict or record does not exist.
    NotFound,
    /// The caller identity does not own the referenced record and is not the
    /// designated administrator.
    Unauthorized,
    /// The operation was attempted from a state that forbids it: an inactive
    /// device, a session no longer in progress, an already-resolved conflict.
    InvalidState,
    /// A malformed input, such as an empty identity.
    ValidationError,
}

} // verus!
