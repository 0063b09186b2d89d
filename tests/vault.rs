use void_node::vault::{frame_vault_file, next_wipe_chunk, parse_vault_file, VaultError};

#[test]
fn vault_file_round_trip() {
    let salt = b"c2FsdHNhbHQ".to_vec();
    let nonce = [7u8; 24];
    let ct = vec![1u8, 2, 3, 4, 5];
    let bytes = frame_vault_file(&salt, &nonce, &ct).unwrap();
    assert_eq!(bytes[0] as usize, salt.len());
    assert_eq!(bytes.len(), 1 + salt.len() + 24 + ct.len());
    let parts = parse_vault_file(&bytes).unwrap();
    assert_eq!(parts.salt, salt);
    assert_eq!(parts.nonce, nonce.to_vec());
    assert_eq!(parts.ciphertext, ct);
}

#[test]
fn vault_salt_too_long() {
    let salt = vec![b'a'; 256];
    assert_eq!(frame_vault_file(&salt, &[0u8; 24], &[]).unwrap_err(), VaultError::SaltTooLong);
    let salt = vec![b'a'; 255];
    assert!(frame_vault_file(&salt, &[0u8; 24], &[]).is_ok());
}

#[test]
fn vault_short_files_are_refused() {
    assert_eq!(parse_vault_file(&[0u8; 24]).unwrap_err(), VaultError::TooShort);
    let mut b = vec![5u8];
    b.extend_from_slice(&[0u8; 26]);
    assert_eq!(parse_vault_file(&b).unwrap_err(), VaultError::Truncated);
    assert_eq!(VaultError::Truncated.message(), "Invalid file format (short)");
    let parts = parse_vault_file(&[0u8; 25]).unwrap();
    assert!(parts.salt.is_empty() && parts.ciphertext.is_empty());
}

#[test]
fn wipe_chunks() {
    assert_eq!(next_wipe_chunk(10_000, 0), 4096);
    assert_eq!(next_wipe_chunk(10_000, 8192), 1808);
    assert_eq!(next_wipe_chunk(1, 0), 1);
}

use void_node::vault::{encrypt_vault, has_vault_extension, open_vault, seal_vault, vault_file_name};

#[test]
fn sealed_file_opens_with_the_same_pin() {
    let nonce = [3u8; 24];
    let file = seal_vault(b"1234", "c2FsdHNhbHQ", &nonce, b"secret data").unwrap();
    assert_eq!(file[0] as usize, "c2FsdHNhbHQ".len());
    assert_eq!(&file[1..12], b"c2FsdHNhbHQ");
    assert_eq!(&file[12..36], &nonce);
    // 11 bytes of plaintext plus a 16-byte tag
    assert_eq!(file.len(), 1 + 11 + 24 + 11 + 16);
    assert_ne!(&file[36..47], b"secret data");
    assert_eq!(open_vault(b"1234", &file).unwrap(), b"secret data".to_vec());
}

#[test]
fn wrong_pin_does_not_open() {
    let file = seal_vault(b"1234", "c2FsdHNhbHQ", &[9u8; 24], b"x").unwrap();
    assert_eq!(open_vault(b"4321", &file).unwrap_err(), VaultError::Decryption);
}

#[test]
fn corrupted_file_does_not_open() {
    let mut file = seal_vault(b"1234", "c2FsdHNhbHQ", &[9u8; 24], b"hello").unwrap();
    let last = file.len() - 1;
    file[last] ^= 1;
    assert_eq!(open_vault(b"1234", &file).unwrap_err(), VaultError::Decryption);
}

#[test]
fn bad_salt_is_refused() {
    assert_eq!(seal_vault(b"1", "!!", &[0u8; 24], b"x").unwrap_err(), VaultError::KeyDerivation);
    let mut file = vec![2u8, 0xff, 0xfe];
    file.extend_from_slice(&[0u8; 30]);
    assert_eq!(open_vault(b"1", &file).unwrap_err(), VaultError::InvalidSalt);
}

#[test]
fn fresh_encryption_round_trip() {
    let file = encrypt_vault(b"pin", b"payload bytes").unwrap();
    assert_eq!(open_vault(b"pin", &file).unwrap(), b"payload bytes".to_vec());
    let again = encrypt_vault(b"pin", b"payload bytes").unwrap();
    assert_ne!(file, again);
}

#[test]
fn vault_names() {
    assert_eq!(vault_file_name("notes.txt"), "notes.txt.void");
    assert!(has_vault_extension("notes.txt.void"));
    assert!(!has_vault_extension(".void"));
    assert!(!has_vault_extension("notes.txt"));
    assert!(!has_vault_extension("void"));
    assert!(has_vault_extension("a.void"));
    assert!(!has_vault_extension("a.voids"));
}
