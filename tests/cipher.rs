use std::collections::HashSet;

use vault_core::cipher::{decrypt_field, encrypt_field, seal_field, KEY_LEN, NONCE_LEN, TAG_LEN};
use vault_core::crypto::derive_session_key;
use vault_core::envelope::{decode_envelope, encode_envelope};
use vault_core::error::VaultError;

fn test_key() -> Vec<u8> {
    (0..KEY_LEN as u8).collect()
}

#[test]
fn envelope_text_is_lowercase_hex() {
    assert_eq!(encode_envelope(&vec![0x00, 0xab, 0xff, 0x10]), "00abff10");
    assert_eq!(encode_envelope(&vec![]), "");
}

#[test]
fn envelope_text_decodes() {
    assert_eq!(decode_envelope("00abff10"), Some(vec![0x00, 0xab, 0xff, 0x10]));
    assert_eq!(decode_envelope(""), Some(vec![]));
    assert_eq!(decode_envelope("abc"), None);
    assert_eq!(decode_envelope("0g"), None);
    assert_eq!(decode_envelope("AB"), None);
}

#[test]
fn round_trip_under_fixed_key() {
    let key = test_key();
    for p in ["", "s3cr3t!", "contraseña ✓ 🔐", "a much longer secret with spaces and symbols !@#$%^&*()"] {
        let env = encrypt_field(&key, p);
        assert_eq!(decrypt_field(&key, &env), Ok(p.to_string()));
    }
}

#[test]
fn round_trip_under_derived_key() {
    let key = derive_session_key("correct-horse", &b"fixed salt 16 b!".to_vec()).unwrap();
    let env = encrypt_field(&key, "hunter2");
    assert_eq!(decrypt_field(&key, &env), Ok("hunter2".to_string()));
}

#[test]
fn envelope_holds_nonce_ciphertext_and_tag() {
    let key = test_key();
    let env = encrypt_field(&key, "abc");
    let bytes = decode_envelope(&env).unwrap();
    assert_eq!(bytes.len(), NONCE_LEN + 3 + TAG_LEN);
    assert_eq!(env.len(), 2 * bytes.len());
}

#[test]
fn sealing_is_fixed_by_key_nonce_and_text() {
    let key = test_key();
    let nonce = vec![7u8; NONCE_LEN];
    let a = seal_field(&key, &nonce, "same");
    let b = seal_field(&key, &nonce, "same");
    assert_eq!(a, b);
    assert!(a.starts_with("070707070707070707070707"));
    let other = seal_field(&key, &vec![8u8; NONCE_LEN], "same");
    assert_ne!(a, other);
    assert_eq!(decrypt_field(&key, &a), Ok("same".to_string()));
    // the ciphertext is not the plaintext
    let bytes = decode_envelope(&a).unwrap();
    assert_ne!(&bytes[NONCE_LEN..NONCE_LEN + 4], b"same");
}

#[test]
fn every_flipped_bit_fails_authentication() {
    let key = test_key();
    let env = encrypt_field(&key, "s3cr3t!");
    let bytes = decode_envelope(&env).unwrap();
    for i in 0..bytes.len() {
        for bit in 0..8 {
            let mut t = bytes.clone();
            t[i] ^= 1 << bit;
            let tampered = encode_envelope(&t);
            assert_eq!(decrypt_field(&key, &tampered), Err(VaultError::AuthenticationFailed));
        }
    }
}

#[test]
fn wrong_key_fails_authentication() {
    let key = test_key();
    let mut other = test_key();
    other[0] ^= 1;
    let env = encrypt_field(&key, "s3cr3t!");
    assert_eq!(decrypt_field(&other, &env), Err(VaultError::AuthenticationFailed));
}

#[test]
fn truncated_envelope_fails() {
    let key = test_key();
    let env = encrypt_field(&key, "s3cr3t!");
    // cut inside the tag: still a nonce, but the tag cannot verify
    assert_eq!(
        decrypt_field(&key, &env[..env.len() - 2]),
        Err(VaultError::AuthenticationFailed)
    );
    // nonce only, no tag
    assert_eq!(
        decrypt_field(&key, &env[..2 * NONCE_LEN]),
        Err(VaultError::AuthenticationFailed)
    );
}

#[test]
fn malformed_envelopes_are_corrupt() {
    let key = test_key();
    assert_eq!(decrypt_field(&key, ""), Err(VaultError::CorruptEnvelope));
    assert_eq!(decrypt_field(&key, "00"), Err(VaultError::CorruptEnvelope));
    assert_eq!(decrypt_field(&key, "zz"), Err(VaultError::CorruptEnvelope));
    assert_eq!(decrypt_field(&key, "abc"), Err(VaultError::CorruptEnvelope));
    let short = "00".repeat(NONCE_LEN - 1);
    assert_eq!(decrypt_field(&key, &short), Err(VaultError::CorruptEnvelope));
    let env = encrypt_field(&key, "s3cr3t!");
    let upper = env.to_uppercase();
    assert_eq!(decrypt_field(&key, &upper), Err(VaultError::CorruptEnvelope));
}

#[test]
fn control_characters_round_trip() {
    let key = test_key();
    let env = seal_field(&key, &vec![0u8; NONCE_LEN], "\u{0}");
    assert_eq!(decrypt_field(&key, &env), Ok("\u{0}".to_string()));
}

#[test]
fn ten_thousand_encryptions_use_distinct_nonces() {
    let key = test_key();
    let mut seen = HashSet::new();
    for _ in 0..10_000 {
        let env = encrypt_field(&key, "x");
        seen.insert(env[..2 * NONCE_LEN].to_string());
    }
    assert_eq!(seen.len(), 10_000);
}
