//! The ways in which an operation of this library can fail.

use vstd::prelude::*;

verus! {

/// Every failure is final for the operation that reported it: nothing is
/// retried and no partial result is handed out.
#[derive(Clone, Copy, Debug, PartialEq, Eq, Structural)]
pub enum CryptError {
    /// The password and its confirmation differ.
    PasswordMismatch,
    /// The header was written by a newer format line, or its version is not a
    /// semantic version at all.
    UnsupportedVersion,
    /// The digest stored in the header does not match its fields.
    IntegrityFailure,
    /// The decrypted data does not end in valid padding: the password is
    /// wrong or the ciphertext is damaged.
    InvalidPadding,
    /// The bytes are not a container, or cannot be framed as one.
    FormatError,
    /// A key-derivation cost or the requested key length is out of range.
    InvalidKdfParams,
    /// The key-derivation primitive refused the password, the salt or the
    /// requested key length.
    KdfRejected,
    /// The operating system's random source did not deliver.
    RandomSource,
}

} // verus!
