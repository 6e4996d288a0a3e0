use vault_core::cipher::KEY_LEN;
use vault_core::crypto::{
    derive_session_key, generate_key_salt, generate_password, generate_random_id,
    hash_master_password, verify_master_password, KEY_SALT_LEN, PASSWORD_CHARS, RANDOM_ID_LEN,
};
use vault_core::error::VaultError;

#[test]
fn hashed_password_verifies() {
    let record = hash_master_password("correct-horse").unwrap();
    assert!(record.starts_with("$argon2id$"));
    assert_eq!(verify_master_password("correct-horse", &record), Ok(true));
}

#[test]
fn other_password_does_not_verify() {
    let record = hash_master_password("correct-horse").unwrap();
    assert_eq!(verify_master_password("wrong", &record), Ok(false));
    assert_eq!(verify_master_password("", &record), Ok(false));
}

#[test]
fn empty_password_hashes_and_verifies() {
    let record = hash_master_password("").unwrap();
    assert_eq!(verify_master_password("", &record), Ok(true));
}

#[test]
fn each_hash_has_its_own_salt() {
    let a = hash_master_password("same").unwrap();
    let b = hash_master_password("same").unwrap();
    assert_ne!(a, b);
}

#[test]
fn malformed_record_is_an_error() {
    assert_eq!(verify_master_password("x", "not a hash"), Err(VaultError::InvalidRecordError));
    assert_eq!(verify_master_password("x", ""), Err(VaultError::InvalidRecordError));
}

#[test]
fn derived_key_is_deterministic() {
    let salt = b"sixteen byte slt".to_vec();
    let a = derive_session_key("correct-horse", &salt).unwrap();
    let b = derive_session_key("correct-horse", &salt).unwrap();
    assert_eq!(a.len(), KEY_LEN);
    assert_eq!(a, b);
}

#[test]
fn derived_keys_differ_by_password_and_salt() {
    let salt = b"sixteen byte slt".to_vec();
    let a = derive_session_key("correct-horse", &salt).unwrap();
    let b = derive_session_key("wrong", &salt).unwrap();
    let c = derive_session_key("correct-horse", &b"another salt 16b".to_vec()).unwrap();
    assert_ne!(a, b);
    assert_ne!(a, c);
}

#[test]
fn short_salt_is_refused() {
    assert_eq!(derive_session_key("p", &b"short".to_vec()), Err(VaultError::HashingError));
    assert_eq!(derive_session_key("p", &vec![]), Err(VaultError::HashingError));
}

#[test]
fn key_salts_are_random() {
    let a = generate_key_salt();
    let b = generate_key_salt();
    assert_eq!(a.len(), KEY_SALT_LEN);
    assert_ne!(a, b);
}

#[test]
fn generated_password_has_length_and_charset() {
    let p = generate_password(64);
    assert_eq!(p.chars().count(), 64);
    assert!(p.chars().all(|c| PASSWORD_CHARS.contains(c)));
    assert_eq!(generate_password(0), "");
    assert_eq!(generate_password(1).chars().count(), 1);
}

#[test]
fn password_charset_spans_classes() {
    assert_eq!(PASSWORD_CHARS.chars().count(), 88);
    assert!(PASSWORD_CHARS.chars().any(|c| c.is_ascii_uppercase()));
    assert!(PASSWORD_CHARS.chars().any(|c| c.is_ascii_lowercase()));
    assert!(PASSWORD_CHARS.chars().any(|c| c.is_ascii_digit()));
    assert!(PASSWORD_CHARS.chars().any(|c| c.is_ascii_punctuation()));
}

#[test]
fn random_ids_are_alphanumeric() {
    let a = generate_random_id();
    let b = generate_random_id();
    assert_eq!(a.len(), RANDOM_ID_LEN);
    assert!(a.chars().all(|c| c.is_ascii_alphanumeric()));
    assert_ne!(a, b);
}

#[test]
fn unusable_record_is_an_error_not_a_mismatch() {
    let record = hash_master_password("pw").unwrap();
    let other_alg = record.replacen("$argon2id$", "$pbkdf2$", 1);
    assert_eq!(verify_master_password("pw", &other_alg), Err(VaultError::InvalidRecordError));
    let other_version = record.replacen("$v=19$", "$v=99$", 1);
    assert_eq!(verify_master_password("pw", &other_version), Err(VaultError::InvalidRecordError));
    let bad_param = record.replacen("p=1", "p=1,zz=3", 1);
    assert_eq!(verify_master_password("pw", &bad_param), Err(VaultError::InvalidRecordError));
}

#[test]
fn salt_at_size_limit_is_accepted() {
    assert!(derive_session_key("p", &b"8 bytes!".to_vec()).is_ok());
    assert_eq!(derive_session_key("p", &b"7 bytes".to_vec()), Err(VaultError::HashingError));
}
