//! Password-based encryption of single files into self-describing containers.
//!
//! A container is a header record followed by AES-256-CBC ciphertext. The
//! header names the algorithms, carries the key-derivation costs, salt and
//! initialisation vector, and is protected by a SHA3-256 digest of its own
//! fields. Everything here works on values in memory; reading and writing
//! files and prompting for passwords is left to the caller.

use vstd::prelude::*;

pub mod aes;
pub mod argon2;
pub mod crypt;
pub mod error;
pub mod file;
pub mod header;
pub mod password;
pub mod text;

verus! {

/// Name under which containers are stamped; its lower-case form is also the
/// file extension of a container.
pub const APP_NAME: &'static str = "filecrypt";

/// Version of the container format written by this build.
pub const APP_VERSION: &'static str = "0.1.0";

/// One-line description of the application.
pub const APP_DESCRIPTION: &'static str = "Encrypts and decrypts single files with a password";

} // verus!
