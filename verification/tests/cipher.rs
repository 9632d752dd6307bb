use aethos::crypto::decode_key;
use aethos::crypto::encode_key;
use aethos::crypto::CryptoService;
use aethos::crypto::KeyManager;
use aethos::crypto::KeyStep;
use aethos::error::ConfigError;
use aethos::paths::ConfigPaths;
use base64::Engine;

fn cipher() -> CryptoService {
    CryptoService::new([7u8; 32]).unwrap()
}

fn decode(token: &str) -> Vec<u8> {
    base64::engine::general_purpose::STANDARD.decode(token).unwrap()
}

fn encode(bytes: &[u8]) -> String {
    base64::engine::general_purpose::STANDARD.encode(bytes)
}

#[test]
fn decrypt_gives_back_what_was_encrypted() {
    let cipher = cipher();
    for text in ["", "a", "sk-test-secret", "päßwörd ✓ 鍵", "line one\nline two", "  padded  "] {
        let token = cipher.encrypt(text).unwrap();
        assert_eq!(cipher.decrypt(&token).unwrap(), text);
    }
}

#[test]
fn two_encryptions_of_one_text_differ() {
    let cipher = cipher();
    let first = cipher.encrypt("same text").unwrap();
    let second = cipher.encrypt("same text").unwrap();
    assert_ne!(first, second);
    assert_eq!(cipher.decrypt(&first).unwrap(), "same text");
    assert_eq!(cipher.decrypt(&second).unwrap(), "same text");
}

#[test]
fn token_is_nonce_then_ciphertext_then_tag() {
    let cipher = cipher();
    let nonce = [9u8; 12];
    let token = cipher.encrypt_with_nonce(&nonce, "hello").unwrap();
    let payload = decode(&token);
    assert_eq!(&payload[..12], &nonce);
    assert_eq!(payload.len(), 12 + 5 + 16);
    assert_ne!(&payload[12..17], b"hello");
    assert_eq!(cipher.decrypt(&token).unwrap(), "hello");
}

#[test]
fn one_nonce_gives_one_token() {
    let cipher = cipher();
    let nonce = [3u8; 12];
    let first = cipher.encrypt_with_nonce(&nonce, "hello").unwrap();
    let second = cipher.encrypt_with_nonce(&nonce, "hello").unwrap();
    assert_eq!(first, second);
    let other = cipher.encrypt_with_nonce(&[4u8; 12], "hello").unwrap();
    assert_ne!(first, other);
}

#[test]
fn any_flipped_bit_of_ciphertext_or_tag_is_rejected() {
    let cipher = cipher();
    let token = cipher.encrypt_with_nonce(&[1u8; 12], "sk-secret-123").unwrap();
    let payload = decode(&token);
    for position in 12..payload.len() {
        for bit in 0..8 {
            let mut changed = payload.clone();
            changed[position] ^= 1 << bit;
            match cipher.decrypt(&encode(&changed)) {
                Err(ConfigError::Encryption(words)) => assert_eq!(words, "failed to decrypt payload"),
                other => panic!("byte {position} bit {bit}: {other:?}"),
            }
        }
    }
}

#[test]
fn a_flipped_bit_of_the_nonce_is_rejected() {
    let cipher = cipher();
    let token = cipher.encrypt_with_nonce(&[1u8; 12], "sk-secret-123").unwrap();
    let mut payload = decode(&token);
    payload[0] ^= 0x80;
    assert!(matches!(cipher.decrypt(&encode(&payload)), Err(ConfigError::Encryption(_))));
}

#[test]
fn a_second_cipher_under_the_same_key_opens_the_same_tokens() {
    let first = cipher();
    let second = first.duplicate();
    let token = first.encrypt("shared").unwrap();
    assert_eq!(second.decrypt(&token).unwrap(), "shared");
    let token = second.encrypt_with_nonce(&[6u8; 12], "x").unwrap();
    assert_eq!(token, first.encrypt_with_nonce(&[6u8; 12], "x").unwrap());
}

#[test]
fn another_key_does_not_open_a_token() {
    let token = cipher().encrypt("secret").unwrap();
    let other = CryptoService::new([8u8; 32]).unwrap();
    assert!(matches!(other.decrypt(&token), Err(ConfigError::Encryption(_))));
}

#[test]
fn text_that_is_not_base64_is_an_encryption_failure() {
    match cipher().decrypt("not base64 !!") {
        Err(ConfigError::Encryption(words)) => assert_eq!(words, "malformed payload"),
        other => panic!("{other:?}"),
    }
}

#[test]
fn a_payload_no_longer_than_a_nonce_is_too_small() {
    let cipher = cipher();
    for length in [0usize, 1, 11, 12] {
        match cipher.decrypt(&encode(&vec![5u8; length])) {
            Err(ConfigError::Encryption(words)) => assert_eq!(words, "payload too small"),
            other => panic!("{length}: {other:?}"),
        }
    }
    match cipher.decrypt(&encode(&[5u8; 13])) {
        Err(ConfigError::Encryption(words)) => assert_eq!(words, "failed to decrypt payload"),
        other => panic!("{other:?}"),
    }
}

#[test]
fn a_token_is_28_bytes_longer_than_its_text() {
    let cipher = cipher();
    for text in ["", "a", "päßwörd", "sk-test-secret"] {
        let payload = decode(&cipher.encrypt(text).unwrap());
        assert_eq!(payload.len(), text.len() + 28);
    }
}

#[test]
fn the_token_is_what_the_cipher_seals_of_the_text() {
    let key = ring::aead::LessSafeKey::new(
        ring::aead::UnboundKey::new(&ring::aead::AES_256_GCM, &[7u8; 32]).unwrap(),
    );
    let nonce = [2u8; 12];
    let mut sealed = b"plain".to_vec();
    key.seal_in_place_append_tag(
        ring::aead::Nonce::assume_unique_for_key(nonce),
        ring::aead::Aad::empty(),
        &mut sealed,
    )
    .unwrap();
    let mut payload = nonce.to_vec();
    payload.extend_from_slice(&sealed);
    assert_eq!(cipher().encrypt_with_nonce(&nonce, "plain").unwrap(), encode(&payload));
}

#[test]
fn a_token_with_zero_padding_opens_too() {
    let key = ring::aead::LessSafeKey::new(
        ring::aead::UnboundKey::new(&ring::aead::AES_256_GCM, &[7u8; 32]).unwrap(),
    );
    let nonce = [2u8; 12];
    let mut sealed = b"plain".to_vec();
    sealed.extend_from_slice(&[0u8; 16]);
    key.seal_in_place_append_tag(
        ring::aead::Nonce::assume_unique_for_key(nonce),
        ring::aead::Aad::empty(),
        &mut sealed,
    )
    .unwrap();
    let mut payload = nonce.to_vec();
    payload.extend_from_slice(&sealed);
    assert_eq!(cipher().decrypt(&encode(&payload)).unwrap(), "plain");
}

#[test]
fn opened_bytes_that_are_no_text_are_a_utf8_failure() {
    let key = ring::aead::LessSafeKey::new(
        ring::aead::UnboundKey::new(&ring::aead::AES_256_GCM, &[7u8; 32]).unwrap(),
    );
    let nonce = [2u8; 12];
    let mut sealed = vec![0xff, 0xfe, 0x00];
    key.seal_in_place_append_tag(
        ring::aead::Nonce::assume_unique_for_key(nonce),
        ring::aead::Aad::empty(),
        &mut sealed,
    )
    .unwrap();
    let mut payload = nonce.to_vec();
    payload.extend_from_slice(&sealed);
    assert!(matches!(cipher().decrypt(&encode(&payload)), Err(ConfigError::Utf8(_))));
}

#[test]
fn a_trailing_nul_is_taken_for_padding() {
    let cipher = cipher();
    let token = cipher.encrypt("a\0").unwrap();
    assert_eq!(cipher.decrypt(&token).unwrap(), "a");
    let token = cipher.encrypt("a\0b").unwrap();
    assert_eq!(cipher.decrypt(&token).unwrap(), "a\0b");
}

#[test]
fn a_key_that_was_not_accepted_makes_no_cipher() {
    match CryptoService::from_checked_key([0u8; 32], false) {
        Err(ConfigError::Encryption(words)) => assert_eq!(words, "ring operation failed"),
        Ok(_) => panic!("a cipher was made"),
        Err(other) => panic!("{other:?}"),
    }
    assert!(CryptoService::from_checked_key([0u8; 32], true).is_ok());
    for byte in [0u8, 1, 0x7f, 0xff] {
        assert!(CryptoService::new([byte; 32]).is_ok());
    }
}

#[test]
fn key_text_reads_back_as_the_key() {
    let mut key = [0u8; 32];
    for (i, byte) in key.iter_mut().enumerate() {
        *byte = (i * 7) as u8;
    }
    let text = encode_key(&key);
    assert_eq!(text, encode(&key));
    assert_ne!(text.as_bytes(), &key[..]);
    assert_eq!(decode_key(&text).unwrap(), key);
    assert_eq!(decode_key(&format!("  {text}\n")).unwrap(), key);
}

#[test]
fn key_text_of_another_length_is_a_mismatch() {
    for length in [0usize, 16, 31, 33] {
        match decode_key(&encode(&vec![1u8; length])) {
            Err(ConfigError::Encryption(words)) => assert_eq!(words, "master key length mismatch"),
            other => panic!("{length}: {other:?}"),
        }
    }
}

#[test]
fn key_text_that_is_not_base64_is_a_base64_failure() {
    assert!(matches!(decode_key("***"), Err(ConfigError::Base64(_))));
}

fn manager() -> KeyManager {
    KeyManager::new(&ConfigPaths {
        base_dir: "/data".to_string(),
        db_path: "/data/aethos.db3".to_string(),
        key_path: "/data/master.key".to_string(),
    })
}

#[test]
fn key_manager_takes_the_key_path() {
    assert_eq!(manager().key_path, "/data/master.key");
}

#[test]
fn a_fresh_installation_generates_a_key_and_finds_it_again() {
    let manager = manager();
    assert!(matches!(manager.begin(), KeyStep::QueryPlatformStore));
    let step = manager.on_platform_secret(None).unwrap();
    match step {
        KeyStep::ReadKeyFile { path } => assert_eq!(path, "/data/master.key"),
        _ => panic!("the key file was not asked for"),
    }
    let (key, encoded) = match manager.on_key_file(None).unwrap() {
        KeyStep::SavePlatformStore { key, encoded } => (key, encoded),
        _ => panic!("no key was generated"),
    };
    assert_eq!(encoded, encode(&key));
    let file = match manager.on_platform_saved(key, encoded, false) {
        KeyStep::WriteKeyFile { key: same, encoded, path } => {
            assert_eq!(same, key);
            assert_eq!(path, "/data/master.key");
            encoded
        }
        _ => panic!("the key file was not written"),
    };
    assert_eq!(decode(&file), key.to_vec());
    assert!(matches!(manager.on_file_written(key), KeyStep::Done { key: done } if done == key));

    assert!(matches!(manager.on_platform_secret(None).unwrap(), KeyStep::ReadKeyFile { .. }));
    match manager.on_key_file(Some(&file)).unwrap() {
        KeyStep::Done { key: again } => assert_eq!(again, key),
        _ => panic!("the key was not read back"),
    }
}

#[test]
fn two_generated_keys_differ() {
    let manager = manager();
    let first = match manager.on_key_file(None).unwrap() {
        KeyStep::SavePlatformStore { key, .. } => key,
        _ => panic!("no key was generated"),
    };
    let second = match manager.on_key_file(None).unwrap() {
        KeyStep::SavePlatformStore { key, .. } => key,
        _ => panic!("no key was generated"),
    };
    assert_ne!(first, second);
}

#[test]
fn the_platform_store_wins_over_the_key_file() {
    let manager = manager();
    let key = [5u8; 32];
    match manager.on_platform_secret(Some(&format!("{}\n", encode(&key)))).unwrap() {
        KeyStep::Done { key: found } => assert_eq!(found, key),
        _ => panic!("the stored key was not taken"),
    }
    assert!(matches!(manager.on_platform_saved(key, encode(&key), true), KeyStep::Done { .. }));
}

#[test]
fn a_damaged_key_file_is_an_error_and_no_reason_for_a_new_key() {
    let manager = manager();
    assert!(matches!(manager.on_key_file(Some("%%%")), Err(ConfigError::Base64(_))));
    match manager.on_key_file(Some(&encode(&[1u8; 8]))) {
        Err(ConfigError::Encryption(words)) => assert_eq!(words, "master key length mismatch"),
        _ => panic!("a short key was taken"),
    }
    assert!(matches!(manager.on_platform_secret(Some("%%%")), Err(ConfigError::Base64(_))));
}

#[test]
fn no_randomness_is_a_key_generation_failure() {
    match manager().on_generated(None) {
        Err(ConfigError::Encryption(words)) => assert_eq!(words, "failed to generate master key"),
        _ => panic!("a key came from nowhere"),
    }
}
