use vstd::prelude::*;

verus! {

/// Which sentinel field of an envelope broke the bundle invariant.
#[derive(Clone, Copy, Debug, PartialEq, Eq, Structural)]
pub enum InvariantField {
    Nonce,
    GasLimit,
    GasPrice,
}

/// Errors of the bundle pipeline.
#[derive(Debug, PartialEq, Eq)]
pub enum Error {
    /// No signing credential was supplied.
    CredentialRequired,
    /// The signing credential could not be parsed.
    CredentialInvalid,
    /// A leaf spec carried no payload.
    DataRequired,
    /// A network or endpoint failure, reported by the caller's transport.
    Transport(String),
    /// Malformed or truncated bundle bytes.
    DecodeError,
    /// Malformed compressed stream.
    CompressionError,
    /// A decoded envelope broke the zero-sentinel invariant.
    BundleInvariantViolation { index: usize, field: InvariantField },
    /// The transaction hash did not resolve.
    NotFound,
}

} // verus!
