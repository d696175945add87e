//! The closed set of translation failures.

use vstd::prelude::*;

verus! {

/// A translation failure, surfaced to the caller instead of panicking.
///
/// Each variant corresponds to one distinct failure point of the two
/// translation directions. Translation failures are structural (malformed
/// input), so none of them is ever retried.
#[derive(Clone, Copy, Debug, PartialEq, Eq, Structural)]
pub enum Error {
    /// The host runtime failed: a request body was read a second time, or a
    /// host response object could not be assembled.
    WorkerError,
    /// The framework's body stream reported a failure while a chunk was
    /// being pulled.
    AxumError,
    /// The host URL text does not parse as a URI.
    InvalidUri,
    /// The host method text is not a valid HTTP method token.
    InvalidMethod,
    /// The framework request could not be assembled from its parts.
    HttpError,
    /// A host header value is not made of legal header-value bytes.
    InvalidHeaderValue,
    /// A host header name is not a valid HTTP token.
    InvalidHeaderName,
    /// A framework header value could not be converted to its text form.
    ToStrError,
}

} // verus!
