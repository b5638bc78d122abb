//! Error taxonomy of the service layer.
//!
//! `BadRequest` is caller-correctable (malformed input, a limit reached,
//! invalid wrapped material), `NotFound` names an unknown key or version,
//! and `StateChange` carries the precise reason a state-machine guard
//! rejected an operation.  The payload of `BadRequest` and `NotFound` is
//! the key identifier the request named, so a caller can correlate the
//! rejection with its request.

use vstd::prelude::*;

use crate::types::KeyStateStatus;

verus! {

/// Typed result of every fallible service operation.
#[derive(Debug)]
pub enum ServiceError {
    /// Malformed or unacceptable request; holds the key identifier involved.
    BadRequest(String),
    /// Unknown key identifier or version; holds the identifier looked up.
    NotFound(String),
    /// A lifecycle guard refused the operation, with the specific reason.
    StateChange(KeyStateStatus),
}

} // verus!
