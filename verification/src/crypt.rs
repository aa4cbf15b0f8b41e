//! The pipeline: from plaintext and password to header and ciphertext, and
//! back.
//!
//! Encryption derives a key from the password and a fresh salt, seals the
//! plaintext under a fresh initialisation vector and stamps a header that
//! records all that decryption needs. Decryption first holds the header to
//! the version gate and to its digest; only a header that passes both is
//! trusted with a key derivation.

use crate::aes::{generate_iv, lemma_open_inverts_seal, open, sealed, BLOCK_SIZE, KEY_SIZE};
use crate::argon2::{
    derived_key, generate_key, generate_salt, DEFAULT_M_COST, DEFAULT_P_COST, DEFAULT_T_COST,
    SALT_SIZE,
};
use crate::error::CryptError;
use crate::header::{semver_parse, stamped, Header, HeaderView};
use crate::APP_VERSION;
use vstd::prelude::*;
use vstd::utf8::encode_utf8;

verus! {

/// Name of the cipher, as recorded in headers.
pub const CIPHER: &'static str = "AES";

/// Name of the cipher mode, as recorded in headers.
pub const MODE: &'static str = "CBC";

/// Name of the key-derivation function, as recorded in headers.
pub const KDF: &'static str = "Argon2id";

/// The gates that a header passes before anything is derived or decrypted:
/// first the version, then the digest.
pub open spec fn header_gate(header: HeaderView) -> Result<(), CryptError> {
    if !header.supported() {
        Err(CryptError::UnsupportedVersion)
    } else if !header.intact() {
        Err(CryptError::IntegrityFailure)
    } else {
        Ok(())
    }
}

/// What decrypting a container under a password yields: the plaintext, or
/// the first failure on the way. The key is derived from the UTF-8 bytes of
/// the password with the salt and the costs of the header.
pub open spec fn decrypt_outcome(
    header: HeaderView,
    ciphertext: Seq<u8>,
    password: Seq<char>,
) -> Result<Seq<u8>, CryptError> {
    match header_gate(header) {
        Err(e) => Err(e),
        Ok(_) => match derived_key(
            header.m_cost,
            header.t_cost,
            header.p_cost,
            Some(KEY_SIZE),
            encode_utf8(password),
            header.salt,
        ) {
            Err(e) => Err(e),
            Ok(key) => match open(ciphertext, key, header.iv) {
                Some(plaintext) => Ok(plaintext),
                None => Err(CryptError::InvalidPadding),
            },
        },
    }
}

/// Why encryption with the given password, costs and salt fails, if it does:
/// no key can be derived, or this build's own version is not a semantic
/// version, so that the container could not be read back.
pub open spec fn encrypt_failure(
    password: Seq<char>,
    m_cost: u32,
    t_cost: u32,
    p_cost: u32,
    salt: Seq<u8>,
) -> Option<CryptError> {
    match derived_key(m_cost, t_cost, p_cost, Some(KEY_SIZE), encode_utf8(password), salt) {
        Err(e) => Some(e),
        Ok(_) => if semver_parse(APP_VERSION@) is None {
            Some(CryptError::UnsupportedVersion)
        } else {
            None
        },
    }
}

/// `header` and `ciphertext` are a container that encrypting `contents`
/// under `password` yields with the given costs, salt and initialisation
/// vector.
pub open spec fn encrypted(
    contents: Seq<u8>,
    password: Seq<char>,
    m_cost: u32,
    t_cost: u32,
    p_cost: u32,
    salt: Seq<u8>,
    iv: Seq<u8>,
    header: HeaderView,
    ciphertext: Seq<u8>,
) -> bool {
    &&& header == stamped(CIPHER@, KEY_SIZE as nat, MODE@, KDF@, m_cost, t_cost, p_cost, salt, iv)
    &&& header.supported()
    &&& derived_key(
        m_cost,
        t_cost,
        p_cost,
        Some(KEY_SIZE),
        encode_utf8(password),
        salt,
    ) matches Ok(key) && sealed(contents, key, iv, ciphertext)
}

/// Decrypting a container under the password that it was encrypted with
/// gives the contents back.
pub proof fn lemma_decrypt_inverts_encrypt(
    contents: Seq<u8>,
    password: Seq<char>,
    m_cost: u32,
    t_cost: u32,
    p_cost: u32,
    salt: Seq<u8>,
    iv: Seq<u8>,
    header: HeaderView,
    ciphertext: Seq<u8>,
)
    requires
        encrypted(contents, password, m_cost, t_cost, p_cost, salt, iv, header, ciphertext),
    ensures
        decrypt_outcome(header, ciphertext, password) == Ok::<Seq<u8>, CryptError>(contents),
{
    let key = derived_key(
        m_cost,
        t_cost,
        p_cost,
        Some(KEY_SIZE),
        encode_utf8(password),
        salt,
    )->Ok_0;
    lemma_open_inverts_seal(contents, key, iv, ciphertext);
}

/// A header that fails a gate stops decryption at that gate, whatever the
/// password and the ciphertext.
pub proof fn lemma_gates_come_first(header: HeaderView, ciphertext: Seq<u8>, password: Seq<char>)
    ensures
        !header.supported() ==> decrypt_outcome(header, ciphertext, password) == Err::<
            Seq<u8>,
            CryptError,
        >(CryptError::UnsupportedVersion),
        header.supported() && !header.intact() ==> decrypt_outcome(header, ciphertext, password)
            == Err::<Seq<u8>, CryptError>(CryptError::IntegrityFailure),
{
}

/// The digest covers the header only: whatever takes the place of the
/// ciphertext of a container, decryption under its password passes both gates
/// and derives the key, and fails, if at all, in the padding.
pub proof fn lemma_damage_shows_in_padding_only(
    contents: Seq<u8>,
    password: Seq<char>,
    m_cost: u32,
    t_cost: u32,
    p_cost: u32,
    salt: Seq<u8>,
    iv: Seq<u8>,
    header: HeaderView,
    ciphertext: Seq<u8>,
    damaged: Seq<u8>,
)
    requires
        encrypted(contents, password, m_cost, t_cost, p_cost, salt, iv, header, ciphertext),
    ensures
        header_gate(header) == Ok::<(), CryptError>(()),
        decrypt_outcome(header, damaged, password) is Ok || decrypt_outcome(
            header,
            damaged,
            password,
        ) == Err::<Seq<u8>, CryptError>(CryptError::InvalidPadding),
{
}

/// Holds a header to the version gate and to its digest, in this order.
pub fn check_header(header: &Header) -> (r: Result<(), CryptError>)
    ensures
        r == header_gate(header@),
{
    if !header.is_supported() {
        Err(CryptError::UnsupportedVersion)
    } else if !header.check_integrity() {
        Err(CryptError::IntegrityFailure)
    } else {
        Ok(())
    }
}

/// Encrypts `contents` under `password` with the given costs, salt and
/// initialisation vector, and stamps the header that goes with the
/// ciphertext.
///
/// Nothing is handed out unless every step succeeded: the key derivation,
/// the sealing, and the check that this build would read the header back.
pub fn encrypt_with(
    contents: Vec<u8>,
    password: &str,
    m_cost: u32,
    t_cost: u32,
    p_cost: u32,
    salt: &[u8],
    iv: [u8; BLOCK_SIZE],
) -> (r: Result<(Header, Vec<u8>), CryptError>)
    requires
        contents@.len() + BLOCK_SIZE <= usize::MAX,
    ensures
        match encrypt_failure(password@, m_cost, t_cost, p_cost, salt@) {
            Some(e) => r is Err && r->Err_0 == e,
            None => r is Ok && encrypted(
                contents@,
                password@,
                m_cost,
                t_cost,
                p_cost,
                salt@,
                iv@,
                r->Ok_0.0@,
                r->Ok_0.1@,
            ),
        },
{
    let key = match generate_key(
        m_cost,
        t_cost,
        p_cost,
        Some(KEY_SIZE),
        password.as_bytes(),
        salt,
    ) {
        Ok(key) => key,
        Err(e) => {
            return Err(e);
        },
    };
    let ciphertext = match crate::aes::encrypt(contents, &key, &iv) {
        Ok(ciphertext) => ciphertext,
        Err(e) => {
            return Err(e);
        },
    };
    let header = Header::new(CIPHER, KEY_SIZE, MODE, KDF, &m_cost, &t_cost, &p_cost, salt, iv);
    if !header.is_supported() {
        return Err(CryptError::UnsupportedVersion);
    }
    Ok((header, ciphertext))
}

/// Encrypts `contents` under `password` with the default costs, a fresh salt
/// and a fresh initialisation vector.
///
/// The salt and the vector come from the operating system, so two calls on
/// the same input give different containers; each of them decrypts to
/// `contents` under `password`. Apart from a failing random source, the only
/// failures are a password of 4 GiB or more and a build whose own version is
/// not a semantic version.
pub fn encrypt(contents: Vec<u8>, password: &str) -> (r: Result<(Header, Vec<u8>), CryptError>)
    requires
        contents@.len() + BLOCK_SIZE <= usize::MAX,
    ensures
        r is Ok ==> exists|salt: Seq<u8>, iv: Seq<u8>|
            salt.len() == SALT_SIZE && iv.len() == BLOCK_SIZE && #[trigger] encrypted(
                contents@,
                password@,
                DEFAULT_M_COST,
                DEFAULT_T_COST,
                DEFAULT_P_COST,
                salt,
                iv,
                r->Ok_0.0@,
                r->Ok_0.1@,
            ),
        r is Err ==> {
            ||| r->Err_0 == CryptError::RandomSource
            ||| r->Err_0 == CryptError::KdfRejected && encode_utf8(password@).len() > 0xFFFF_FFFF
            ||| r->Err_0 == CryptError::UnsupportedVersion && semver_parse(APP_VERSION@) is None
        },
{
    let salt = match generate_salt() {
        Ok(salt) => salt,
        Err(e) => {
            return Err(e);
        },
    };
    let iv = match generate_iv() {
        Ok(iv) => iv,
        Err(e) => {
            return Err(e);
        },
    };
    encrypt_with(
        contents,
        password,
        DEFAULT_M_COST,
        DEFAULT_T_COST,
        DEFAULT_P_COST,
        salt.as_slice(),
        iv,
    )
}

/// Decrypts the ciphertext of a container under `password`.
///
/// The header is held to the version gate and to its digest before the key
/// is derived; a header that fails either is refused with
/// `UnsupportedVersion` or `IntegrityFailure` and costs no key derivation. A
/// wrong password shows as `InvalidPadding`, as damaged ciphertext does.
pub fn decrypt(header: &Header, ciphertext: Vec<u8>, password: &str) -> (r: Result<
    Vec<u8>,
    CryptError,
>)
    ensures
        match decrypt_outcome(header@, ciphertext@, password@) {
            Ok(plaintext) => r is Ok && r->Ok_0@ == plaintext,
            Err(e) => r == Err::<Vec<u8>, CryptError>(e),
        },
{
    match check_header(header) {
        Ok(_) => {},
        Err(e) => {
            return Err(e);
        },
    }
    let salt = header.get_salt();
    let iv = header.get_iv();
    let key = match generate_key(
        header.get_m_cost(),
        header.get_t_cost(),
        header.get_p_cost(),
        Some(KEY_SIZE),
        password.as_bytes(),
        salt.as_slice(),
    ) {
        Ok(key) => key,
        Err(e) => {
            return Err(e);
        },
    };
    crate::aes::decrypt(ciphertext, &key, &iv)
}

} // verus!
