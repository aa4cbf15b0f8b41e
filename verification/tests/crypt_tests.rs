use filecrypt::aes::{generate_iv, BLOCK_SIZE};
use filecrypt::argon2::{generate_salt, DEFAULT_M_COST, DEFAULT_P_COST, DEFAULT_T_COST};
use filecrypt::crypt::{check_header, decrypt, encrypt, encrypt_with, CIPHER, KDF, MODE};
use filecrypt::error::CryptError;
use filecrypt::header::Header;

const SALT: [u8; 22] = [11u8; 22];
const IV: [u8; BLOCK_SIZE] = [13u8; BLOCK_SIZE];

fn rebuilt(h: &Header, version: &str, t_cost: u32, integrity: Vec<u8>) -> Header {
    Header::from_parts(
        h.get_app(),
        version.to_string(),
        h.get_cipher(),
        h.get_key_size(),
        h.get_mode(),
        h.get_kdf(),
        h.get_m_cost(),
        t_cost,
        h.get_p_cost(),
        h.get_salt(),
        h.get_iv(),
        integrity,
    )
}

#[test]
fn five_bytes_under_a_password() {
    let salt = generate_salt().unwrap();
    let iv = generate_iv().unwrap();
    let (header, ciphertext) =
        encrypt_with(vec![1, 2, 3, 4, 5], "password", 64, 2, 1, &salt, iv).unwrap();
    assert!(header.is_supported());
    assert!(header.check_integrity());
    assert_eq!(decrypt(&header, ciphertext.clone(), "password"), Ok(vec![1, 2, 3, 4, 5]));
    assert!(decrypt(&header, ciphertext, "wrong").is_err());
}

#[test]
fn default_encryption_uses_the_default_costs() {
    let (header, ciphertext) = encrypt(vec![1, 2, 3, 4, 5], "password").unwrap();
    assert!(header.is_supported());
    assert!(header.check_integrity());
    assert_eq!(header.get_m_cost(), DEFAULT_M_COST);
    assert_eq!(header.get_t_cost(), DEFAULT_T_COST);
    assert_eq!(header.get_p_cost(), DEFAULT_P_COST);
    assert_eq!(header.get_salt().len(), 22);
    assert_ne!(header.get_salt(), vec![0u8; 22]);
    assert_ne!(header.get_iv(), [0u8; BLOCK_SIZE]);
    assert_eq!(ciphertext.len(), 16);
}

#[test]
fn header_records_what_decryption_needs() {
    let (header, ciphertext) = encrypt_with(vec![1, 2, 3, 4, 5], "password", 64, 2, 1, &SALT, IV).unwrap();
    assert_eq!(ciphertext.len(), 16);
    assert_eq!(header.get_cipher(), CIPHER);
    assert_eq!(header.get_mode(), MODE);
    assert_eq!(header.get_kdf(), KDF);
    assert_eq!(header.get_key_size(), 256);
    assert_eq!(header.get_m_cost(), 64);
    assert_eq!(header.get_t_cost(), 2);
    assert_eq!(header.get_p_cost(), 1);
    assert_eq!(header.get_salt(), SALT.to_vec());
    assert_eq!(header.get_iv(), IV);
    assert_eq!(check_header(&header), Ok(()));
}

#[test]
fn round_trip_for_many_plaintexts_and_passwords() {
    for (len, password) in [(0usize, ""), (1, "a"), (15, "pass word"), (16, "\u{e9}t\u{e9}"), (17, "p"), (1000, "correct horse battery staple")] {
        let contents: Vec<u8> = (0..len).map(|i| (i % 251) as u8).collect();
        let (header, ciphertext) = encrypt_with(contents.clone(), password, 64, 1, 1, &SALT, IV).unwrap();
        assert_eq!(decrypt(&header, ciphertext, password), Ok(contents));
    }
}

#[test]
fn wrong_password_is_invalid_padding() {
    let (header, ciphertext) = encrypt_with(b"some contents".to_vec(), "right", 64, 1, 1, &SALT, IV).unwrap();
    assert_eq!(decrypt(&header, ciphertext.clone(), "wrong"), Err(CryptError::InvalidPadding));
    assert_eq!(decrypt(&header, ciphertext, "Right"), Err(CryptError::InvalidPadding));
}

#[test]
fn same_salt_and_iv_give_the_same_container() {
    let (first, first_ct) = encrypt_with(vec![9; 40], "pw", 64, 1, 1, &SALT, IV).unwrap();
    let (second, second_ct) = encrypt_with(vec![9; 40], "pw", 64, 1, 1, &SALT, IV).unwrap();
    assert_eq!(first_ct, second_ct);
    assert_eq!(first.get_integrity(), second.get_integrity());
}

#[test]
fn unsupported_version_stops_before_the_digest() {
    let (header, ciphertext) = encrypt_with(vec![1, 2, 3], "pw", 64, 1, 1, &SALT, IV).unwrap();
    let newer = rebuilt(&header, "0.2.0", header.get_t_cost(), header.get_integrity());
    assert_eq!(check_header(&newer), Err(CryptError::UnsupportedVersion));
    assert_eq!(decrypt(&newer, ciphertext.clone(), "pw"), Err(CryptError::UnsupportedVersion));
    let garbled = rebuilt(&header, "not a version", header.get_t_cost(), vec![0; 32]);
    assert_eq!(decrypt(&garbled, ciphertext, "pw"), Err(CryptError::UnsupportedVersion));
}

#[test]
fn tampered_header_is_an_integrity_failure() {
    let (header, ciphertext) = encrypt_with(vec![1, 2, 3], "pw", 64, 1, 1, &SALT, IV).unwrap();
    let cheaper = rebuilt(&header, "0.1.0", 2, header.get_integrity());
    assert_eq!(check_header(&cheaper), Err(CryptError::IntegrityFailure));
    assert_eq!(decrypt(&cheaper, ciphertext.clone(), "pw"), Err(CryptError::IntegrityFailure));
    let older = rebuilt(&header, "0.0.1", 1, header.get_integrity());
    assert_eq!(decrypt(&older, ciphertext, "pw"), Err(CryptError::IntegrityFailure));
}

#[test]
fn digest_covers_the_header_only() {
    // The ciphertext is not authenticated: the header checks pass whatever
    // happens to it, and damage shows, if at all, in the padding.
    let contents: Vec<u8> = (0..48).collect();
    let (header, ciphertext) = encrypt_with(contents.clone(), "pw", 64, 1, 1, &SALT, IV).unwrap();

    let mut damaged_tail = ciphertext.clone();
    let last = damaged_tail.len() - 1;
    damaged_tail[last] ^= 0xFF;
    assert!(header.check_integrity());
    assert_eq!(check_header(&header), Ok(()));
    assert_eq!(decrypt(&header, damaged_tail, "pw"), Err(CryptError::InvalidPadding));

    let mut damaged_head = ciphertext;
    damaged_head[0] ^= 0x01;
    assert_eq!(check_header(&header), Ok(()));
    let opened = decrypt(&header, damaged_head, "pw").unwrap();
    assert_eq!(opened.len(), contents.len());
    assert_ne!(opened, contents);
    assert_eq!(opened[32..], contents[32..]);
}

#[test]
fn intact_header_with_unusable_costs_fails_in_key_derivation() {
    let h = Header::new(CIPHER, 32, MODE, KDF, &0, &1, &1, &SALT, IV);
    assert_eq!(check_header(&h), Ok(()));
    assert_eq!(decrypt(&h, vec![0; 16], "pw"), Err(CryptError::InvalidKdfParams));
    let short_salt = Header::new(CIPHER, 32, MODE, KDF, &64, &1, &1, &[1, 2, 3], IV);
    assert_eq!(decrypt(&short_salt, vec![0; 16], "pw"), Err(CryptError::KdfRejected));
}

#[test]
fn encryption_reports_key_derivation_failures() {
    assert_eq!(
        encrypt_with(vec![1], "pw", 0, 1, 1, &SALT, IV).err(),
        Some(CryptError::InvalidKdfParams)
    );
    assert_eq!(
        encrypt_with(vec![1], "pw", 64, 1, 1, &[0u8; 4], IV).err(),
        Some(CryptError::KdfRejected)
    );
}
