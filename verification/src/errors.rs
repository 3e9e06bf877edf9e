//! Error taxonomy of the engine.  Every failure is surfaced to the caller;
//! nothing is recovered internally.

use vstd::prelude::*;

verus! {

/// Decode failures of the binary envelope codec.
#[derive(Clone, Copy, Debug, PartialEq, Eq, Structural)]
pub enum CodecError {
    /// The input ran out before the announced structure was complete.
    TooShort,
    /// A field name did not match the schema.
    UnexpectedField,
    /// A length prefix disagreed with the data, or a fixed-width field had
    /// the wrong width.
    WrongLength,
    /// A key field did not parse as the expected key encoding.
    MalformedKey,
}

/// Failures of the identity, key-exchange and message-channel operations.
#[derive(Clone, Copy, Debug, PartialEq, Eq, Structural)]
pub enum CryptoError {
    /// An underlying cryptographic primitive refused its input
    /// (bad key material, AEAD tag mismatch, parameter error).
    Primitive,
    /// A wire envelope failed to decode.
    Codec(CodecError),
    /// The operation needs the CA signing half, but this identity is an
    /// instance and carries only the CA verifying key.
    MissingCaPrivate,
    /// The password-derived key failed to open an exported user blob.
    BadPassword,
    /// `complete_kex` was called for a label with no in-flight ephemeral.
    NoInFlight,
    /// `seal`/`open` was called for a label with no completed key exchange.
    NoSession,
    /// The sender's verifying key is not signed by this identity's CA.
    PeerNotCaSigned,
    /// The peer's ephemeral public key is not signed by the sender's
    /// verifying key.
    EphemeralNotSignedBySender,
    /// The decrypted payload was not a well-formed LZ4 frame.
    Compression,
}

} // verus!
