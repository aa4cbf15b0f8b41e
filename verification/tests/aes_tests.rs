use filecrypt::aes::{
    decrypt, drawn, encrypt, generate_iv, strip_padding, BLOCK_SIZE, KEY_SIZE,
};
use filecrypt::error::CryptError;

#[test]
fn test_generate_iv() {
    let iv = generate_iv().unwrap();
    assert_eq!(iv.len(), BLOCK_SIZE);
}

#[test]
fn test_encrypt_decrypt() {
    let key = [0u8; KEY_SIZE];
    let iv = generate_iv().unwrap();
    let plaintext = b"Hello, world!".to_vec();
    let ciphertext = encrypt(plaintext.clone(), &key, &iv).unwrap();
    let decrypted_plaintext = decrypt(ciphertext.clone(), &key, &iv).unwrap();

    assert_eq!(plaintext, decrypted_plaintext);
}

#[test]
fn successive_ivs_differ() {
    let first = generate_iv().unwrap();
    let second = generate_iv().unwrap();
    assert_ne!(first, second);
}

#[test]
fn ciphertext_is_padded_to_whole_blocks() {
    let key = [7u8; KEY_SIZE];
    let iv = [9u8; BLOCK_SIZE];
    assert_eq!(encrypt(Vec::new(), &key, &iv).unwrap().len(), 16);
    assert_eq!(encrypt(vec![1u8; 1], &key, &iv).unwrap().len(), 16);
    assert_eq!(encrypt(vec![1u8; 13], &key, &iv).unwrap().len(), 16);
    assert_eq!(encrypt(vec![1u8; 15], &key, &iv).unwrap().len(), 16);
    assert_eq!(encrypt(vec![1u8; 16], &key, &iv).unwrap().len(), 32);
    assert_eq!(encrypt(vec![1u8; 17], &key, &iv).unwrap().len(), 32);
    assert_eq!(encrypt(vec![1u8; 100], &key, &iv).unwrap().len(), 112);
}

#[test]
fn round_trip_at_every_length_around_a_block() {
    let key = [0x42u8; KEY_SIZE];
    let iv = [0x24u8; BLOCK_SIZE];
    for len in 0..50usize {
        let plaintext: Vec<u8> = (0..len).map(|i| (i * 7 + 3) as u8).collect();
        let ciphertext = encrypt(plaintext.clone(), &key, &iv).unwrap();
        assert_eq!(decrypt(ciphertext, &key, &iv), Ok(plaintext));
    }
}

#[test]
fn matches_the_published_aes256_cbc_vector() {
    // NIST SP 800-38A, F.2.5 (CBC-AES256.Encrypt), first block.
    let key: [u8; KEY_SIZE] = [
        0x60, 0x3d, 0xeb, 0x10, 0x15, 0xca, 0x71, 0xbe, 0x2b, 0x73, 0xae, 0xf0, 0x85, 0x7d, 0x77,
        0x81, 0x1f, 0x35, 0x2c, 0x07, 0x3b, 0x61, 0x08, 0xd7, 0x2d, 0x98, 0x10, 0xa3, 0x09, 0x14,
        0xdf, 0xf4,
    ];
    let iv: [u8; BLOCK_SIZE] = [
        0x00, 0x01, 0x02, 0x03, 0x04, 0x05, 0x06, 0x07, 0x08, 0x09, 0x0a, 0x0b, 0x0c, 0x0d, 0x0e,
        0x0f,
    ];
    let plaintext = vec![
        0x6b, 0xc1, 0xbe, 0xe2, 0x2e, 0x40, 0x9f, 0x96, 0xe9, 0x3d, 0x7e, 0x11, 0x73, 0x93, 0x17,
        0x2a,
    ];
    let expected_first_block = vec![
        0xf5, 0x8c, 0x4c, 0x04, 0xd6, 0xe5, 0xf1, 0xba, 0x77, 0x9e, 0xab, 0xfb, 0x5f, 0x7b, 0xfb,
        0xd6,
    ];
    let ciphertext = encrypt(plaintext.clone(), &key, &iv).unwrap();
    assert_eq!(ciphertext.len(), 32);
    assert_eq!(ciphertext[..16].to_vec(), expected_first_block);
    assert_eq!(decrypt(ciphertext, &key, &iv), Ok(plaintext));
}

#[test]
fn ciphertext_that_is_not_whole_blocks_is_refused() {
    let key = [0u8; KEY_SIZE];
    let iv = [0u8; BLOCK_SIZE];
    assert_eq!(decrypt(vec![0u8; 15], &key, &iv), Err(CryptError::InvalidPadding));
    assert_eq!(decrypt(vec![0u8; 17], &key, &iv), Err(CryptError::InvalidPadding));
    assert_eq!(decrypt(Vec::new(), &key, &iv), Err(CryptError::InvalidPadding));
}

#[test]
fn wrong_key_is_detected_by_the_padding() {
    let key = [1u8; KEY_SIZE];
    let other = [2u8; KEY_SIZE];
    let iv = [3u8; BLOCK_SIZE];
    let ciphertext = encrypt(b"attack at dawn".to_vec(), &key, &iv).unwrap();
    assert_eq!(decrypt(ciphertext, &other, &iv), Err(CryptError::InvalidPadding));
}

#[test]
fn damaged_last_block_is_detected_by_the_padding() {
    let key = [1u8; KEY_SIZE];
    let iv = [3u8; BLOCK_SIZE];
    let mut ciphertext = encrypt(b"attack at dawn".to_vec(), &key, &iv).unwrap();
    let last = ciphertext.len() - 1;
    ciphertext[last] ^= 0x01;
    assert_eq!(decrypt(ciphertext, &key, &iv), Err(CryptError::InvalidPadding));
}

#[test]
fn padding_length_is_read_from_the_last_byte() {
    assert_eq!(strip_padding(vec![1, 2, 3, 1]), Ok(vec![1, 2, 3]));
    assert_eq!(strip_padding(vec![1, 2, 3, 2, 2]), Ok(vec![1, 2, 3]));
    assert_eq!(strip_padding(vec![16; 16]), Ok(Vec::new()));
    assert_eq!(strip_padding(vec![5; 5]), Ok(Vec::new()));
    let mut block = vec![9u8; 32];
    block[31] = 16;
    assert_eq!(strip_padding(block), Ok(vec![9u8; 16]));
}

#[test]
fn padding_length_out_of_range_is_invalid() {
    assert_eq!(strip_padding(Vec::new()), Err(CryptError::InvalidPadding));
    assert_eq!(strip_padding(vec![1, 2, 3, 0]), Err(CryptError::InvalidPadding));
    assert_eq!(strip_padding(vec![17; 32]), Err(CryptError::InvalidPadding));
    assert_eq!(strip_padding(vec![255; 16]), Err(CryptError::InvalidPadding));
    assert_eq!(strip_padding(vec![3, 3]), Err(CryptError::InvalidPadding));
}

#[test]
fn every_padding_length_round_trips() {
    let key = [0x11u8; KEY_SIZE];
    let iv = [0x22u8; BLOCK_SIZE];
    for len in 16..=32usize {
        let plaintext = vec![0xEEu8; len];
        let ciphertext = encrypt(plaintext.clone(), &key, &iv).unwrap();
        assert_eq!(ciphertext.len(), len + 16 - len % 16);
        assert_eq!(decrypt(ciphertext, &key, &iv), Ok(plaintext));
    }
}

#[test]
fn drawn_bytes_are_handed_on_as_they_are() {
    let bytes: [u8; 16] = [1, 2, 3, 4, 5, 6, 7, 8, 9, 10, 11, 12, 13, 14, 15, 16];
    assert_eq!(drawn(Some(bytes)), Ok(bytes));
    assert_eq!(drawn(Some([0xABu8; 22])), Ok([0xABu8; 22]));
    assert_eq!(drawn(Some([0u8; 0])), Ok([0u8; 0]));
}

#[test]
fn failed_draw_is_a_random_source_failure() {
    assert_eq!(drawn::<16>(None), Err(CryptError::RandomSource));
    assert_eq!(drawn::<22>(None), Err(CryptError::RandomSource));
}
