//! The key-derivation adapter: Argon2id, version 0x13, from the `argon2` crate.
//!
//! The derived key is a function of the password, the salt and the three
//! costs alone. Which requests the primitive accepts is a handful of bounds,
//! written out here so that callers know beforehand whether a key is owed.

use crate::aes::{drawn, os_random_bytes, KEY_SIZE};
use crate::error::CryptError;
use vstd::prelude::*;

verus! {

/// Memory cost used for new containers, in KiB.
pub const DEFAULT_M_COST: u32 = 4096;

/// Number of passes used for new containers.
pub const DEFAULT_T_COST: u32 = 100;

/// Degree of parallelism used for new containers.
pub const DEFAULT_P_COST: u32 = 16;

/// Length of a salt in bytes.
pub const SALT_SIZE: usize = 22;

/// Largest degree of parallelism that Argon2 admits.
pub const MAX_P_COST: u32 = 0xFF_FFFF;

#[verifier::external_type_specification]
#[verifier::external_body]
pub struct ExArgon2Error(::argon2::Error);

/// The 32-byte key that Argon2id (version 0x13, no secret, no associated
/// data) derives from a password and a salt at the given costs.
pub uninterp spec fn argon2id_key(
    password: Seq<u8>,
    salt: Seq<u8>,
    m_cost: u32,
    t_cost: u32,
    p_cost: u32,
) -> Seq<u8>;

/// The costs and the requested length are each within what Argon2 admits:
/// at least 8 KiB of memory and 8 KiB per lane, at least one pass, between 1
/// and 2^24 - 1 lanes, and a requested length, if any, between 4 and
/// 2^32 - 1 bytes.
pub open spec fn kdf_params_valid(
    m_cost: u32,
    t_cost: u32,
    p_cost: u32,
    output_len: Option<usize>,
) -> bool {
    &&& m_cost >= 8
    &&& m_cost >= 8 * p_cost
    &&& t_cost >= 1
    &&& 1 <= p_cost <= MAX_P_COST
    &&& output_len matches Some(len) ==> 4 <= len <= 0xFFFF_FFFF
}

/// The primitive takes the request: a requested length, if any, is the key
/// size, the password is no longer than 2^32 - 1 bytes and the salt between
/// 8 and 2^32 - 1 bytes.
pub open spec fn kdf_inputs_valid(output_len: Option<usize>, password_len: nat, salt_len: nat) -> bool {
    &&& output_len matches Some(len) ==> len == KEY_SIZE
    &&& password_len <= 0xFFFF_FFFF
    &&& 8 <= salt_len <= 0xFFFF_FFFF
}

/// What key derivation yields: the key, or the reason why there is none.
pub open spec fn derived_key(
    m_cost: u32,
    t_cost: u32,
    p_cost: u32,
    output_len: Option<usize>,
    password: Seq<u8>,
    salt: Seq<u8>,
) -> Result<Seq<u8>, CryptError> {
    if !kdf_params_valid(m_cost, t_cost, p_cost, output_len) {
        Err(CryptError::InvalidKdfParams)
    } else if !kdf_inputs_valid(output_len, password.len(), salt.len()) {
        Err(CryptError::KdfRejected)
    } else {
        Ok(argon2id_key(password, salt, m_cost, t_cost, p_cost))
    }
}

/// Builds `argon2::Params` with `Params::new`, an Argon2id context of version
/// 0x13 with `Argon2::new`, and calls its `hash_password_into` on a 32-byte
/// buffer.
///
/// `Params::new` multiplies `p_cost` by 8 in 32 bits, hence the bound on it.
/// The call succeeds exactly when `Params::new` accepts the costs and the
/// requested length and `hash_password_into` accepts the buffer, the password
/// and the salt; the contract spells out those bounds and names the key.
/// Memory for `m_cost` KiB is allocated on the way; as with any allocation,
/// running out of it ends the process rather than the call.
#[verifier::external_body]
fn argon2id_hash(
    m_cost: u32,
    t_cost: u32,
    p_cost: u32,
    output_len: Option<usize>,
    password: &[u8],
    salt: &[u8],
) -> (r: Result<[u8; KEY_SIZE], ::argon2::Error>)
    requires
        p_cost <= MAX_P_COST,
    ensures
        r is Ok == (kdf_params_valid(m_cost, t_cost, p_cost, output_len) && kdf_inputs_valid(
            output_len,
            password@.len(),
            salt@.len(),
        )),
        r is Ok ==> r->Ok_0@ == argon2id_key(password@, salt@, m_cost, t_cost, p_cost),
{
    let mut key = [0u8; KEY_SIZE];
    let params = ::argon2::Params::new(m_cost, t_cost, p_cost, output_len)?;
    let kdf = ::argon2::Argon2::new(
        ::argon2::Algorithm::Argon2id,
        ::argon2::Version::V0x13,
        params,
    );
    kdf.hash_password_into(password, salt, &mut key)?;
    Ok(key)
}

/// Whether the costs and the requested length are each within range.
fn kdf_params_in_range(m_cost: u32, t_cost: u32, p_cost: u32, output_len: Option<usize>) -> (ok:
    bool)
    ensures
        ok == kdf_params_valid(m_cost, t_cost, p_cost, output_len),
{
    let length_ok = match output_len {
        Some(len) => 4 <= len && len <= 0xFFFF_FFFF,
        None => true,
    };
    m_cost >= 8 && 1 <= p_cost && p_cost <= MAX_P_COST && m_cost / 8 >= p_cost && t_cost >= 1
        && length_ok
}

/// Derives the key for a password and a salt at the given costs.
///
/// The same arguments always give the same key; the password is used as it
/// is, neither cut nor filled. A request with a cost or a length out of range
/// fails with `InvalidKdfParams`; one that the primitive refuses for its
/// password, its salt or a requested length other than the key size fails
/// with `KdfRejected`.
pub fn generate_key(
    m_cost: u32,
    t_cost: u32,
    p_cost: u32,
    output_len: Option<usize>,
    password: &[u8],
    salt: &[u8],
) -> (r: Result<[u8; KEY_SIZE], CryptError>)
    ensures
        match derived_key(m_cost, t_cost, p_cost, output_len, password@, salt@) {
            Ok(key) => r is Ok && r->Ok_0@ == key,
            Err(e) => r == Err::<[u8; KEY_SIZE], CryptError>(e),
        },
{
    if p_cost > MAX_P_COST {
        return Err(CryptError::InvalidKdfParams);
    }
    match argon2id_hash(m_cost, t_cost, p_cost, output_len, password, salt) {
        Ok(key) => Ok(key),
        Err(_) => {
            if kdf_params_in_range(m_cost, t_cost, p_cost, output_len) {
                Err(CryptError::KdfRejected)
            } else {
                Err(CryptError::InvalidKdfParams)
            }
        },
    }
}

/// Draws a fresh salt from the operating system's random source; fails with
/// `RandomSource` if that source does.
pub fn generate_salt() -> (r: Result<[u8; SALT_SIZE], CryptError>)
    ensures
        r is Err ==> r == Err::<[u8; SALT_SIZE], CryptError>(CryptError::RandomSource),
{
    drawn(os_random_bytes::<SALT_SIZE>())
}

} // verus!
