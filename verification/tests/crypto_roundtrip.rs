//! The crypto boundary: round trips, tampering, key-size rule, salts and
//! the clock helpers.

use codex_switch::commands::cache_fresh;
use codex_switch::crypto::{decrypt_from_base64, derive_key, encrypt_to_base64, generate_salt};
use codex_switch::errors::CoreError;
use codex_switch::store::{new_uuid, now, rfc3339_epoch_seconds};
use base64::Engine;

fn key_of(byte: u8) -> Vec<u8> {
    vec![byte; 32]
}

#[test]
fn encrypt_then_decrypt_returns_the_plaintext() {
    let key = key_of(7);
    let plaintext = "{\"type\":\"codex\",\"access_token\":\"secret-token\"}";
    let sealed = encrypt_to_base64(&key, plaintext).expect("seal");
    let opened = decrypt_from_base64(&key, &sealed).expect("open");
    assert_eq!(opened, plaintext);
}

#[test]
fn two_seals_of_one_text_still_both_open() {
    let key = key_of(9);
    let sealed_a = encrypt_to_base64(&key, "hello").unwrap();
    let sealed_b = encrypt_to_base64(&key, "hello").unwrap();
    // fresh nonces: the ciphertexts differ, both open
    assert_ne!(sealed_a, sealed_b);
    assert_eq!(decrypt_from_base64(&key, &sealed_a).unwrap(), "hello");
    assert_eq!(decrypt_from_base64(&key, &sealed_b).unwrap(), "hello");
    // base64 of nonce (24) + ciphertext (5) + tag (16): 45 bytes, 60 characters
    assert_eq!(sealed_a.len(), 60);
    let raw = decode_base64_len(&sealed_a);
    assert_eq!(raw, "hello".len() + 40);
}

fn decode_base64_len(sealed: &str) -> usize {
    base64::engine::general_purpose::STANDARD.decode(sealed).unwrap().len()
}

#[test]
fn wrong_key_fails_to_open() {
    let sealed = encrypt_to_base64(&key_of(1), "secret").unwrap();
    let err = decrypt_from_base64(&key_of(2), &sealed).unwrap_err();
    assert!(matches!(err, CoreError::DecryptFailed));
}

#[test]
fn tampered_payload_fails_to_open() {
    let key = key_of(3);
    let sealed = encrypt_to_base64(&key, "secret").unwrap();
    let mut chars: Vec<char> = sealed.chars().collect();
    let flipped = if chars[10] == 'A' { 'B' } else { 'A' };
    chars[10] = flipped;
    let tampered: String = chars.into_iter().collect();
    assert!(decrypt_from_base64(&key, &tampered).is_err());
}

#[test]
fn truncated_payload_fails_to_open() {
    let key = key_of(4);
    assert!(matches!(decrypt_from_base64(&key, "QUJD"), Err(CoreError::DecryptFailed)));
    assert!(matches!(decrypt_from_base64(&key, "not base64 ~~"), Err(CoreError::DecryptFailed)));
}

#[test]
fn short_or_long_keys_are_refused() {
    let short = vec![0u8; 16];
    assert!(matches!(encrypt_to_base64(&short, "x"), Err(CoreError::KeySize)));
    assert!(matches!(decrypt_from_base64(&short, "x"), Err(CoreError::KeySize)));
    let long = vec![0u8; 33];
    assert!(matches!(encrypt_to_base64(&long, "x"), Err(CoreError::KeySize)));
}

#[test]
fn derive_key_is_deterministic_per_salt() {
    let salt = generate_salt();
    let k1 = derive_key("passphrase-1", &salt).expect("derive");
    let k2 = derive_key("passphrase-1", &salt).expect("derive");
    let k3 = derive_key("passphrase-2", &salt).expect("derive");
    assert_eq!(k1.len(), 32);
    assert_eq!(k1, k2);
    assert_ne!(k1, k3);
}

#[test]
fn derive_key_rejects_invalid_salt_text() {
    assert!(derive_key("passphrase-1", "!!! not a salt !!!").is_err());
}

#[test]
fn cache_freshness_follows_age_bounds() {
    let stamp = "2020-01-01T00:00:00+00:00";
    let epoch = rfc3339_epoch_seconds(stamp).expect("parse");
    assert!(cache_fresh(stamp, epoch, 300));
    assert!(cache_fresh(stamp, epoch + 300, 300));
    assert!(!cache_fresh(stamp, epoch + 301, 300));
    // a clock that stands before the stamp never reuses
    assert!(!cache_fresh(stamp, epoch - 1, 300));
    assert!(!cache_fresh("not a timestamp", epoch, 300));
}

#[test]
fn clock_and_id_sources_have_usable_shapes() {
    assert_eq!(new_uuid().len(), 36);
    let stamp = now();
    assert!(rfc3339_epoch_seconds(&stamp).is_some());
}
