//! What can go wrong.

use vstd::prelude::*;

verus! {

/// The reason for which `bincode` refused a value or a sequence of bytes.
#[verifier::external_type_specification]
#[verifier::external_body]
pub struct ExBincodeErrorKind(bincode::ErrorKind);

/// The errors of this library.
#[derive(Debug)]
pub enum Error {
    /// No cipher suite has been chosen.
    CipherSuiteUnset,
    /// A cipher suite that this library does not know.
    InvalidCipherSuite,
    /// Keying material was asked for before the handshake was over.
    HandshakeInProgress,
    /// Keying material was asked for with a context.
    ContextUnsupported,
    /// Keying material was asked for under a label that TLS itself uses.
    ReservedExportKeyingMaterial,
    /// The verify data of a Finished message is not the one expected.
    VerifyDataMismatch,
    /// A record or a handshake message is of another kind than its place asks for.
    InvalidContentType,
    /// No signature scheme is acceptable to both sides.
    NoAvailableSignatureSchemes,
    /// The input ends before the value does.
    UnexpectedEndOfInput,
    /// A key was refused by the keyed hash.
    InvalidKeyLength,
    /// A saved state could not be written or read.
    Bincode(bincode::Error),
    /// An error of another part of the connection, in words.
    Other(String),
}

} // verus!
