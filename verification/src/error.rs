//! Failure taxonomy of the client.

use vstd::prelude::*;

verus! {

/// Why a call against the service failed.
///
/// No failure is retried or recovered internally: every call either succeeds
/// with a typed result or surfaces exactly one of these to the caller.
#[derive(Debug, Clone, PartialEq, Eq)]
pub enum Error {
    /// Connection-level failure reported by the transport, with its message.
    Transport(String),
    /// The service answered with an HTTP status outside the success range.
    HttpStatus(u16),
    /// The response body did not decode into the expected shape.
    ResponseParse,
    /// The landing page did not contain the session token pattern.
    TokenParse,
}

} // verus!
