//! The error kinds that the library surfaces to its callers.

use vstd::prelude::*;

verus! {

/// Every failure the library reports. Transport and HTTP-status failures come
/// from the caller's transport layer and are carried through unchanged; the
/// other kinds arise in the library itself.
#[derive(Clone, Copy, Debug, PartialEq, Eq, Structural)]
pub enum HampterError {
    /// The network request itself failed (connection, timeout, protocol).
    TransportError,
    /// The service answered with the given non-success HTTP status code.
    HttpStatusError(u16),
    /// A streamed line was malformed: shorter than the event prefix,
    /// not valid UTF-8, or its payload did not parse as a generation chunk.
    DecodeError,
    /// The token-refresh round trip failed; stored credentials are untouched.
    AuthError,
    /// A requested choice index is absent from a chunk.
    IndexError,
    /// A generation request broke a documented precondition.
    ValidationError,
}

} // verus!
