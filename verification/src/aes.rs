//! The cipher adapter: AES-256 in CBC mode with PKCS#7 padding.
//!
//! The block cipher itself comes from the `aes` and `cbc` crates and the
//! padding from `block-padding`. What the cipher computes is given a name
//! here; what the padding does is a few lines and is written out, so that the
//! plaintext that a ciphertext opens to can be stated and reasoned about.

use crate::error::CryptError;
use ::aes::cipher::{BlockDecryptMut, BlockEncryptMut, KeyIvInit};
use block_padding::Pkcs7;
use rand::{rngs::OsRng, TryRngCore};
use vstd::prelude::*;

verus! {

/// Size of a cipher block, and of the initialisation vector, in bytes.
pub const BLOCK_SIZE: usize = 16;

/// Size of the key in bytes.
pub const KEY_SIZE: usize = 32;

/// The ciphertext that AES-256-CBC produces from whole blocks under a key and
/// an initialisation vector.
pub uninterp spec fn aes256_cbc_encrypt(key: Seq<u8>, iv: Seq<u8>, blocks: Seq<u8>) -> Seq<u8>;

/// The blocks that AES-256-CBC recovers from whole blocks of ciphertext under
/// a key and an initialisation vector.
pub uninterp spec fn aes256_cbc_decrypt(key: Seq<u8>, iv: Seq<u8>, blocks: Seq<u8>) -> Seq<u8>;

/// Number of padding bytes that follow a message of `len` bytes: between 1
/// and 16, filling the last block.
pub open spec fn pad_len(len: nat) -> nat {
    (16 - len % 16) as nat
}

/// A message with its PKCS#7 padding: every padding byte holds the number of
/// padding bytes.
pub open spec fn pkcs7_pad(msg: Seq<u8>) -> Seq<u8> {
    msg + Seq::new(pad_len(msg.len()), |i: int| pad_len(msg.len()) as u8)
}

/// Whether `data` consists of whole blocks and ends in valid PKCS#7 padding:
/// the last byte `n` is between 1 and 16 and each of the last `n` bytes is `n`.
pub open spec fn pkcs7_padded(data: Seq<u8>) -> bool {
    &&& data.len() > 0
    &&& data.len() % 16 == 0
    &&& 1 <= data.last() <= 16
    &&& forall|i: int| data.len() - data.last() <= i < data.len() ==> data[i] == data.last()
}

/// The message inside padded data, or `None` if the padding is not valid.
pub open spec fn pkcs7_unpad(data: Seq<u8>) -> Option<Seq<u8>> {
    if pkcs7_padded(data) {
        Some(data.take(data.len() - data.last()))
    } else {
        None
    }
}

/// The message that the last byte of `data` leaves when read as a padding
/// length: `None` if that byte is not between 1 and 16 or exceeds the data.
/// On validly padded data this is the message inside.
pub open spec fn stripped(data: Seq<u8>) -> Option<Seq<u8>> {
    if data.len() > 0 && 1 <= data.last() <= 16 && data.last() <= data.len() {
        Some(data.take(data.len() - data.last()))
    } else {
        None
    }
}

/// `ciphertext` is what sealing `plaintext` under `key` and `iv` yields: the
/// encryption of the padded plaintext, which the cipher decrypts back to it.
pub open spec fn sealed(plaintext: Seq<u8>, key: Seq<u8>, iv: Seq<u8>, ciphertext: Seq<u8>) -> bool {
    &&& ciphertext == aes256_cbc_encrypt(key, iv, pkcs7_pad(plaintext))
    &&& ciphertext.len() == plaintext.len() + pad_len(plaintext.len())
    &&& aes256_cbc_decrypt(key, iv, ciphertext) == pkcs7_pad(plaintext)
}

/// The plaintext that `ciphertext` opens to under `key` and `iv`; `None` if it
/// is empty, not whole blocks, or does not decrypt to validly padded data.
pub open spec fn open(ciphertext: Seq<u8>, key: Seq<u8>, iv: Seq<u8>) -> Option<Seq<u8>> {
    if ciphertext.len() > 0 && ciphertext.len() % 16 == 0 {
        pkcs7_unpad(aes256_cbc_decrypt(key, iv, ciphertext))
    } else {
        None
    }
}

/// Padding is reversible: a padded message is validly padded and unpads to
/// the message.
pub proof fn lemma_unpad_inverts_pad(msg: Seq<u8>)
    ensures
        pkcs7_padded(pkcs7_pad(msg)),
        pkcs7_unpad(pkcs7_pad(msg)) == Some(msg),
{
    let n = pad_len(msg.len());
    let padded = pkcs7_pad(msg);
    assert(1 <= n <= 16);
    assert(padded.len() == msg.len() + n);
    assert(padded.len() % 16 == 0) by {
        assert((msg.len() + (16 - msg.len() % 16)) % 16 == 0) by (nonlinear_arith);
    }
    assert(padded.last() == n as u8);
    assert(padded.take(padded.len() - n) =~= msg);
}

/// Opening what was sealed, under the same key and initialisation vector,
/// gives the plaintext back.
pub proof fn lemma_open_inverts_seal(
    plaintext: Seq<u8>,
    key: Seq<u8>,
    iv: Seq<u8>,
    ciphertext: Seq<u8>,
)
    requires
        sealed(plaintext, key, iv, ciphertext),
    ensures
        open(ciphertext, key, iv) == Some(plaintext),
{
    lemma_unpad_inverts_pad(plaintext);
}

/// Calls `encrypt_padded_mut::<Pkcs7>` of a fresh `cbc::Encryptor<aes::Aes256>`
/// on the buffer, whose first `msg_len` bytes are the message.
///
/// The buffer has room for exactly the padded message, so the call pads the
/// last block in place and encrypts every block. The contract names the
/// ciphertext and claims that CBC decryption under the same key and
/// initialisation vector undoes it.
#[verifier::external_body]
fn cbc_encrypt_padded(
    buffer: &mut Vec<u8>,
    msg_len: usize,
    key: &[u8; KEY_SIZE],
    iv: &[u8; BLOCK_SIZE],
)
    requires
        old(buffer)@.len() == msg_len + 16 - msg_len % 16,
    ensures
        final(buffer)@.len() == old(buffer)@.len(),
        final(buffer)@ == aes256_cbc_encrypt(
            key@,
            iv@,
            pkcs7_pad(old(buffer)@.take(msg_len as int)),
        ),
        aes256_cbc_decrypt(key@, iv@, final(buffer)@) == pkcs7_pad(
            old(buffer)@.take(msg_len as int),
        ),
{
    let enc = cbc::Encryptor::<::aes::Aes256>::new(key.into(), iv.into());
    let _ = enc.encrypt_padded_mut::<Pkcs7>(buffer.as_mut_slice(), msg_len);
}

/// Calls `decrypt_padded_mut::<Pkcs7>` of a fresh `cbc::Decryptor<aes::Aes256>`
/// on the buffer and reports whether it returned a message.
///
/// A buffer that is not whole blocks is refused untouched. Otherwise every
/// block is decrypted in place, and the padding of the last one is checked
/// strictly: the call is refused where that check fails, and always for an
/// empty buffer.
#[verifier::external_body]
fn cbc_decrypt_padded(buffer: &mut Vec<u8>, key: &[u8; KEY_SIZE], iv: &[u8; BLOCK_SIZE]) -> (accepted:
    bool)
    ensures
        final(buffer)@.len() == old(buffer)@.len(),
        old(buffer)@.len() % 16 == 0 ==> final(buffer)@ == aes256_cbc_decrypt(
            key@,
            iv@,
            old(buffer)@,
        ),
        old(buffer)@.len() % 16 != 0 ==> final(buffer)@ == old(buffer)@,
        accepted == pkcs7_padded(final(buffer)@),
{
    let dec = cbc::Decryptor::<::aes::Aes256>::new(key.into(), iv.into());
    dec.decrypt_padded_mut::<Pkcs7>(buffer.as_mut_slice()).is_ok()
}

/// Calls `try_fill_bytes` of `rand`'s `OsRng` on a zeroed array of `N` bytes.
///
/// Nothing is claimed of the bytes: they differ from call to call. `None`
/// reports that the operating system's random source failed.
#[verifier::external_body]
pub(crate) fn os_random_bytes<const N: usize>() -> (bytes: Option<[u8; N]>) {
    let mut bytes = [0u8; N];
    match OsRng.try_fill_bytes(&mut bytes) {
        Ok(()) => Some(bytes),
        Err(_) => None,
    }
}

/// Seals `plaintext`: pads it to whole blocks and encrypts it.
///
/// Always succeeds; the ciphertext is one to sixteen bytes longer than the
/// plaintext.
pub fn encrypt(plaintext: Vec<u8>, key: &[u8; KEY_SIZE], iv: &[u8; BLOCK_SIZE]) -> (r: Result<
    Vec<u8>,
    CryptError,
>)
    requires
        plaintext@.len() + BLOCK_SIZE <= usize::MAX,
    ensures
        r is Ok,
        sealed(plaintext@, key@, iv@, r->Ok_0@),
{
    let msg_len = plaintext.len();
    let padded_len = msg_len + BLOCK_SIZE - (msg_len % BLOCK_SIZE);
    let mut buffer = plaintext;
    buffer.resize(padded_len, 0u8);
    assert(buffer@.take(msg_len as int) =~= plaintext@);
    cbc_encrypt_padded(&mut buffer, msg_len, key, iv);
    Ok(buffer)
}

/// Strips the padding that the last byte of `data` announces.
///
/// The last byte must be a padding length, between 1 and the block size and
/// no more than there are bytes; anything else fails with `InvalidPadding`
/// rather than yielding a message of the wrong length.
pub fn strip_padding(data: Vec<u8>) -> (r: Result<Vec<u8>, CryptError>)
    ensures
        match stripped(data@) {
            Some(msg) => r is Ok && r->Ok_0@ == msg,
            None => r == Err::<Vec<u8>, CryptError>(CryptError::InvalidPadding),
        },
{
    let len = data.len();
    if len == 0 {
        return Err(CryptError::InvalidPadding);
    }
    let last_byte = data[len - 1];
    if last_byte == 0 || last_byte as usize > BLOCK_SIZE || last_byte as usize > len {
        return Err(CryptError::InvalidPadding);
    }
    let mut msg = data;
    msg.truncate(len - last_byte as usize);
    Ok(msg)
}

/// Opens `ciphertext`: decrypts it and strips the padding.
///
/// Fails with `InvalidPadding` exactly when the ciphertext is not whole
/// blocks, is empty, or decrypts to data whose padding is not valid, which is
/// what a wrong key or damaged ciphertext leads to.
pub fn decrypt(ciphertext: Vec<u8>, key: &[u8; KEY_SIZE], iv: &[u8; BLOCK_SIZE]) -> (r: Result<
    Vec<u8>,
    CryptError,
>)
    ensures
        match open(ciphertext@, key@, iv@) {
            Some(plaintext) => r is Ok && r->Ok_0@ == plaintext,
            None => r == Err::<Vec<u8>, CryptError>(CryptError::InvalidPadding),
        },
{
    let mut buffer = ciphertext;
    if !cbc_decrypt_padded(&mut buffer, key, iv) {
        return Err(CryptError::InvalidPadding);
    }
    strip_padding(buffer)
}

/// Draws a fresh initialisation vector from the operating system's random
/// source; fails with `RandomSource` if that source does.
pub fn generate_iv() -> (r: Result<[u8; BLOCK_SIZE], CryptError>)
    ensures
        r is Err ==> r == Err::<[u8; BLOCK_SIZE], CryptError>(CryptError::RandomSource),
{
    drawn(os_random_bytes::<BLOCK_SIZE>())
}

/// What a draw from the random source amounts to: the bytes that were drawn,
/// as they are, or `RandomSource` where the source did not deliver.
pub fn drawn<const N: usize>(bytes: Option<[u8; N]>) -> (r: Result<[u8; N], CryptError>)
    ensures
        match bytes {
            Some(fresh) => r == Ok::<[u8; N], CryptError>(fresh),
            None => r == Err::<[u8; N], CryptError>(CryptError::RandomSource),
        },
{
    match bytes {
        Some(fresh) => Ok(fresh),
        None => Err(CryptError::RandomSource),
    }
}

} // verus!
