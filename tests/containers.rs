use secure_prefs::container::{Container, HEADER_LEN, MIN_LEN, TAG_LEN};
use secure_prefs::{Cipher, SecurityError, SecurityManager};

const PASSWORD: &str = "My most secure password";

fn length_field(bytes: &[u8]) -> usize {
    u32::from_be_bytes([bytes[30], bytes[31], bytes[32], bytes[33]]) as usize
}

#[test]
fn text_round_trip() {
    let manager = SecurityManager::new(PASSWORD, None);
    let sealed = manager.encrypt_str("{\"color\":\"blue\"}").unwrap();
    assert_eq!(manager.dencrypt_str(&sealed).unwrap(), "{\"color\":\"blue\"}");
}

#[test]
fn empty_text_round_trip() {
    let manager = SecurityManager::new(PASSWORD, None);
    let sealed = manager.encrypt_str("").unwrap();
    assert_eq!(sealed.len(), MIN_LEN);
    assert_eq!(manager.dencrypt_str(&sealed).unwrap(), "");
}

#[test]
fn non_ascii_text_round_trip() {
    let manager = SecurityManager::new("pässwörd", Some(Cipher::Aes256Gcm));
    let text = "größe: 12 € ✓ 😀";
    let sealed = manager.encrypt_str(text).unwrap();
    assert_eq!(manager.dencrypt_str(&sealed).unwrap(), text);
}

#[test]
fn large_text_round_trip() {
    let manager = SecurityManager::new(PASSWORD, None);
    let text = "0123456789abcdef".repeat(3 * 65536);
    assert_eq!(text.len(), 3 * 1024 * 1024);
    let sealed = manager.encrypt_str(&text).unwrap();
    assert_eq!(sealed.len(), MIN_LEN + text.len());
    assert_eq!(manager.dencrypt_str(&sealed).unwrap(), text);
}

#[test]
fn bytes_round_trip() {
    let manager = SecurityManager::new(PASSWORD, Some(Cipher::Chacha20Poly1305));
    let data: Vec<u8> = (0..=255u8).collect();
    let sealed = manager.encrypt(&data).unwrap();
    assert_eq!(manager.decrypt(&sealed).unwrap(), data);
}

#[test]
fn wrong_password_is_authentication_failure() {
    let writer = SecurityManager::new("first password", None);
    let reader = SecurityManager::new("second password", None);
    let sealed = writer.encrypt_str("secret").unwrap();
    assert_eq!(reader.dencrypt_str(&sealed), Err(SecurityError::AuthenticationFailure));
}

#[test]
fn wrong_password_aes_is_authentication_failure() {
    let writer = SecurityManager::new("first password", Some(Cipher::Aes256Gcm));
    let reader = SecurityManager::new("first passwore", Some(Cipher::Aes256Gcm));
    let sealed = writer.encrypt(b"secret").unwrap();
    assert_eq!(reader.decrypt(&sealed), Err(SecurityError::AuthenticationFailure));
}

#[test]
fn flipped_ciphertext_bit_is_authentication_failure() {
    let manager = SecurityManager::new(PASSWORD, None);
    let mut sealed = manager.encrypt_str("some preferences").unwrap();
    sealed[HEADER_LEN + 3] ^= 0x10;
    assert_eq!(manager.dencrypt_str(&sealed), Err(SecurityError::AuthenticationFailure));
}

#[test]
fn flipped_tag_bit_is_authentication_failure() {
    let manager = SecurityManager::new(PASSWORD, Some(Cipher::Aes256Gcm));
    let mut sealed = manager.encrypt_str("some preferences").unwrap();
    let last = sealed.len() - 1;
    sealed[last] ^= 0x01;
    assert_eq!(manager.dencrypt_str(&sealed), Err(SecurityError::AuthenticationFailure));
}

#[test]
fn flipped_salt_and_nonce_bits_are_authentication_failures() {
    let manager = SecurityManager::new(PASSWORD, None);
    let sealed = manager.encrypt_str("x").unwrap();
    let mut salt_changed = sealed.clone();
    salt_changed[2] ^= 0x80;
    assert_eq!(manager.decrypt(&salt_changed), Err(SecurityError::AuthenticationFailure));
    let mut nonce_changed = sealed.clone();
    nonce_changed[20] ^= 0x02;
    assert_eq!(manager.decrypt(&nonce_changed), Err(SecurityError::AuthenticationFailure));
}

#[test]
fn encrypting_twice_gives_different_containers() {
    let manager = SecurityManager::new(PASSWORD, None);
    let first = manager.encrypt_str("same text").unwrap();
    let second = manager.encrypt_str("same text").unwrap();
    assert_ne!(first, second);
    assert_ne!(first[2..18], second[2..18]);
    assert_ne!(first[18..30], second[18..30]);
    assert_eq!(manager.dencrypt_str(&first).unwrap(), "same text");
    assert_eq!(manager.dencrypt_str(&second).unwrap(), "same text");
}

#[test]
fn truncated_container_is_malformed() {
    let manager = SecurityManager::new(PASSWORD, None);
    let sealed = manager.encrypt_str("abc").unwrap();
    for n in 0..sealed.len() {
        assert_eq!(
            manager.decrypt(&sealed[..n]),
            Err(SecurityError::MalformedContainer),
            "length {}",
            n
        );
    }
}

#[test]
fn unknown_version_is_malformed() {
    let manager = SecurityManager::new(PASSWORD, None);
    let mut sealed = manager.encrypt_str("abc").unwrap();
    sealed[0] = 2;
    assert_eq!(manager.dencrypt_str(&sealed), Err(SecurityError::MalformedContainer));
    sealed[0] = 0;
    assert_eq!(manager.dencrypt_str(&sealed), Err(SecurityError::MalformedContainer));
}

#[test]
fn unknown_cipher_is_malformed() {
    let manager = SecurityManager::new(PASSWORD, None);
    let mut sealed = manager.encrypt_str("abc").unwrap();
    sealed[1] = 0;
    assert_eq!(manager.decrypt(&sealed), Err(SecurityError::MalformedContainer));
    sealed[1] = 3;
    assert_eq!(manager.decrypt(&sealed), Err(SecurityError::MalformedContainer));
}

#[test]
fn extended_container_is_malformed() {
    let manager = SecurityManager::new(PASSWORD, None);
    let mut sealed = manager.encrypt_str("abc").unwrap();
    sealed.push(0);
    assert_eq!(manager.decrypt(&sealed), Err(SecurityError::MalformedContainer));
}

#[test]
fn other_cipher_handle_opens_old_container() {
    let old = SecurityManager::new(PASSWORD, Some(Cipher::Aes256Gcm));
    let new = SecurityManager::new(PASSWORD, Some(Cipher::Chacha20Poly1305));
    let sealed = old.encrypt_str("kept across upgrades").unwrap();
    assert_eq!(sealed[1], 2);
    assert_eq!(new.dencrypt_str(&sealed).unwrap(), "kept across upgrades");
    let resealed = new.encrypt_str("kept across upgrades").unwrap();
    assert_eq!(resealed[1], 1);
    assert_eq!(old.dencrypt_str(&resealed).unwrap(), "kept across upgrades");
}

#[test]
fn container_layout_of_encryption() {
    let manager = SecurityManager::new(PASSWORD, Some(Cipher::Aes256Gcm));
    let text = "hello, world";
    let sealed = manager.encrypt_str(text).unwrap();
    assert_eq!(sealed.len(), MIN_LEN + text.len());
    assert_eq!(sealed[0], 1);
    assert_eq!(sealed[1], 2);
    assert_eq!(length_field(&sealed), text.len());
    // The ciphertext is not the plaintext.
    assert_ne!(&sealed[HEADER_LEN..HEADER_LEN + text.len()], text.as_bytes());
}

#[test]
fn default_cipher_is_chacha() {
    let manager = SecurityManager::new(PASSWORD, None);
    assert_eq!(manager.cipher(), Cipher::Chacha20Poly1305);
    let sealed = manager.encrypt(b"").unwrap();
    assert_eq!(sealed[1], 1);
    assert_eq!(length_field(&sealed), 0);
}

#[test]
fn chosen_cipher_is_kept() {
    let manager = SecurityManager::new(PASSWORD, Some(Cipher::Aes256Gcm));
    assert_eq!(manager.cipher(), Cipher::Aes256Gcm);
}

#[test]
fn binary_plaintext_is_not_text() {
    let manager = SecurityManager::new(PASSWORD, None);
    let sealed = manager.encrypt(&[0xff, 0xfe, 0x00]).unwrap();
    assert_eq!(manager.dencrypt_str(&sealed), Err(SecurityError::InvalidText));
    assert_eq!(manager.decrypt(&sealed).unwrap(), vec![0xff, 0xfe, 0x00]);
}

#[test]
fn cipher_ids() {
    assert_eq!(Cipher::Chacha20Poly1305.id(), 1);
    assert_eq!(Cipher::Aes256Gcm.id(), 2);
    assert_eq!(Cipher::from_id(1), Some(Cipher::Chacha20Poly1305));
    assert_eq!(Cipher::from_id(2), Some(Cipher::Aes256Gcm));
    assert_eq!(Cipher::from_id(0), None);
    assert_eq!(Cipher::from_id(255), None);
}

fn sample_bytes() -> Vec<u8> {
    let mut b = vec![1u8, 2];
    b.extend((0..16u8).map(|i| 0xa0 + i));
    b.extend((0..12u8).map(|i| 0xb0 + i));
    b.extend([0, 0, 0, 3]);
    b.extend([7, 8, 9]);
    b.extend((0..16u8).map(|i| 0xc0 + i));
    b
}

#[test]
fn container_parses_fields() {
    let bytes = sample_bytes();
    let c = Container::from_bytes(&bytes).unwrap();
    assert_eq!(c.version, 1);
    assert_eq!(c.cipher, Cipher::Aes256Gcm);
    assert_eq!(c.salt, (0..16u8).map(|i| 0xa0 + i).collect::<Vec<u8>>());
    assert_eq!(c.nonce, (0..12u8).map(|i| 0xb0 + i).collect::<Vec<u8>>());
    assert_eq!(c.ciphertext, vec![7, 8, 9]);
    assert_eq!(c.tag, (0..16u8).map(|i| 0xc0 + i).collect::<Vec<u8>>());
    assert_eq!(c.tag.len(), TAG_LEN);
    assert_eq!(c.to_bytes(), bytes);
}

#[test]
fn container_with_wrong_length_field_is_malformed() {
    let mut bytes = sample_bytes();
    bytes[33] = 4;
    assert!(matches!(Container::from_bytes(&bytes), Err(SecurityError::MalformedContainer)));
    bytes[33] = 2;
    assert!(matches!(Container::from_bytes(&bytes), Err(SecurityError::MalformedContainer)));
    bytes[33] = 3;
    bytes[30] = 1;
    assert!(matches!(Container::from_bytes(&bytes), Err(SecurityError::MalformedContainer)));
}

#[test]
fn smallest_container_parses() {
    let mut bytes = vec![1u8, 1];
    bytes.extend([0u8; 28]);
    bytes.extend([0u8; 4]);
    bytes.extend([9u8; 16]);
    assert_eq!(bytes.len(), MIN_LEN);
    let c = Container::from_bytes(&bytes).unwrap();
    assert!(c.ciphertext.is_empty());
    assert_eq!(c.cipher, Cipher::Chacha20Poly1305);
    assert_eq!(c.to_bytes(), bytes);
    assert!(matches!(
        Container::from_bytes(&bytes[..MIN_LEN - 1]),
        Err(SecurityError::MalformedContainer)
    ));
}

#[test]
fn forged_container_is_authentication_failure() {
    let manager = SecurityManager::new(PASSWORD, None);
    assert_eq!(manager.decrypt(&sample_bytes()), Err(SecurityError::AuthenticationFailure));
}

#[test]
fn error_messages() {
    assert_eq!(SecurityError::MalformedContainer.message(), "malformed container");
    assert_eq!(SecurityError::AuthenticationFailure.message(), "authentication failure");
    assert_eq!(SecurityError::EncryptionFailure.message(), "encryption failure");
    assert_eq!(SecurityError::InvalidText.message(), "decrypted data is not valid text");
}

#[test]
fn flipped_header_bits_are_malformed() {
    let manager = SecurityManager::new(PASSWORD, None);
    let sealed = manager.encrypt_str("header").unwrap();
    for i in [0usize, 1, 30, 31, 32, 33] {
        for bit in 0..8 {
            let mut changed = sealed.clone();
            changed[i] ^= 1 << bit;
            assert_eq!(
                manager.decrypt(&changed),
                Err(SecurityError::MalformedContainer),
                "byte {} bit {}",
                i,
                bit
            );
        }
    }
}
