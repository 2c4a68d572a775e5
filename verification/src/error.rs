//! The failures that the library reports.

use vstd::prelude::*;

verus! {

/// Why an operation of the library did not produce its result.
#[derive(Clone, Copy, Debug, PartialEq, Eq, Structural)]
pub enum CoreError {
    /// A length or type field of the input does not fit the bytes that are there.
    MalformedInput,
    /// No ClientHello was found in a capture.
    NotFound,
    /// The key length asked for belongs to no cipher that the library drives.
    UnsupportedAlgorithm,
    /// The authentication tag of a sealed message did not match.
    AuthenticationFailed,
    /// A secret is too short to be a pseudorandom key, or a label, a context
    /// or an output length does not fit the derivation's length fields.
    KeyDerivationError,
    /// The next message counter would repeat an earlier one.
    ProtocolViolation,
    /// More bytes are needed before a frame can be taken off the buffer.
    IncompleteData,
    /// The connection has been shut down.
    ConnectionClosed,
    /// The clock, the entropy source or a cipher refused to do its work.
    Io,
}

} // verus!
