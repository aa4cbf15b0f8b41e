use filecrypt::aes::KEY_SIZE;
use filecrypt::argon2::{
    generate_key, generate_salt, DEFAULT_M_COST, DEFAULT_P_COST, DEFAULT_T_COST, SALT_SIZE,
};
use filecrypt::error::CryptError;

#[test]
fn test_generate_salt() {
    let salt = generate_salt();
    assert_eq!(salt.unwrap().len(), 22);
}

#[test]
fn test_generate_key() {
    let password = b"password";
    let salt = generate_salt().unwrap();
    let m_cost = DEFAULT_M_COST;
    let t_cost = DEFAULT_T_COST;
    let p_cost = DEFAULT_P_COST;
    let key_size: usize = KEY_SIZE;
    let key = generate_key(m_cost, t_cost, p_cost, Some(key_size), password, &salt).unwrap();
    assert_eq!(key.len(), key_size);
}

#[test]
fn successive_salts_differ() {
    let first = generate_salt().unwrap();
    let second = generate_salt().unwrap();
    assert_eq!(first.len(), SALT_SIZE);
    assert_ne!(first, second);
}

#[test]
fn same_inputs_give_the_same_key() {
    let salt = [5u8; 22];
    let first = generate_key(64, 2, 1, Some(KEY_SIZE), b"password", &salt).unwrap();
    let second = generate_key(64, 2, 1, Some(KEY_SIZE), b"password", &salt).unwrap();
    assert_eq!(first, second);
    assert_ne!(first, [0u8; KEY_SIZE]);
}

#[test]
fn key_depends_on_every_input() {
    let salt = [5u8; 22];
    let other_salt = [6u8; 22];
    let key = generate_key(64, 2, 1, Some(KEY_SIZE), b"password", &salt).unwrap();
    assert_ne!(key, generate_key(64, 2, 1, Some(KEY_SIZE), b"passwore", &salt).unwrap());
    assert_ne!(key, generate_key(64, 2, 1, Some(KEY_SIZE), b"password", &other_salt).unwrap());
    assert_ne!(key, generate_key(72, 2, 1, Some(KEY_SIZE), b"password", &salt).unwrap());
    assert_ne!(key, generate_key(64, 3, 1, Some(KEY_SIZE), b"password", &salt).unwrap());
    assert_ne!(key, generate_key(64, 2, 2, Some(KEY_SIZE), b"password", &salt).unwrap());
}

#[test]
fn key_is_what_argon2id_gives() {
    let salt = [5u8; 22];
    let params = argon2::Params::new(64, 2, 1, Some(32)).unwrap();
    let kdf = argon2::Argon2::new(argon2::Algorithm::Argon2id, argon2::Version::V0x13, params);
    let mut expected = [0u8; 32];
    kdf.hash_password_into(b"password", &salt, &mut expected).unwrap();
    assert_eq!(generate_key(64, 2, 1, Some(KEY_SIZE), b"password", &salt), Ok(expected));
    assert_eq!(generate_key(64, 2, 1, None, b"password", &salt), Ok(expected));
}

#[test]
fn costs_out_of_range_are_invalid_params() {
    let salt = [5u8; 22];
    let pw = b"password";
    let invalid = Err(CryptError::InvalidKdfParams);
    assert_eq!(generate_key(0, 2, 1, Some(KEY_SIZE), pw, &salt), invalid);
    assert_eq!(generate_key(7, 2, 1, Some(KEY_SIZE), pw, &salt), invalid);
    assert_eq!(generate_key(15, 2, 2, Some(KEY_SIZE), pw, &salt), invalid);
    assert_eq!(generate_key(64, 0, 1, Some(KEY_SIZE), pw, &salt), invalid);
    assert_eq!(generate_key(64, 2, 0, Some(KEY_SIZE), pw, &salt), invalid);
    assert_eq!(generate_key(u32::MAX, 2, 0x100_0000, Some(KEY_SIZE), pw, &salt), invalid);
    assert_eq!(generate_key(u32::MAX, 2, u32::MAX, Some(KEY_SIZE), pw, &salt), invalid);
    assert_eq!(generate_key(64, 2, 1, Some(3), pw, &salt), invalid);
}

#[test]
fn smallest_costs_are_accepted() {
    let salt = [5u8; 8];
    assert!(generate_key(8, 1, 1, Some(KEY_SIZE), b"", &salt).is_ok());
    assert!(generate_key(16, 1, 2, None, b"pw", &salt).is_ok());
}

#[test]
fn refused_inputs_are_rejected() {
    let pw = b"password";
    let rejected = Err(CryptError::KdfRejected);
    assert_eq!(generate_key(64, 2, 1, Some(KEY_SIZE), pw, &[5u8; 7]), rejected);
    assert_eq!(generate_key(64, 2, 1, Some(KEY_SIZE), pw, &[]), rejected);
    assert_eq!(generate_key(64, 2, 1, Some(16), pw, &[5u8; 22]), rejected);
    assert_eq!(generate_key(64, 2, 1, Some(64), pw, &[5u8; 22]), rejected);
}
