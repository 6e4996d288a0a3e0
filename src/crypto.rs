use vstd::prelude::*;
use vstd::utf8::encode_utf8;

use argon2::password_hash::rand_core::OsRng;
use argon2::password_hash::{PasswordHash, PasswordHasher, PasswordVerifier, SaltString};
use argon2::Argon2;
use rand::seq::SliceRandom;
use rand::Rng;

use crate::cipher::{random_bytes, KEY_LEN};
use crate::error::VaultError;
use crate::text::{chars_of, push_char};

verus! {

/// The characters that generated passwords are drawn from: upper and lower
/// case letters, digits and symbols.
pub const PASSWORD_CHARS: &'static str =
    "ABCDEFGHIJKLMNOPQRSTUVWXYZabcdefghijklmnopqrstuvwxyz0123456789!@#$%^&*()_+-=[]{}|;:,.<>?";

/// Length of the identifiers that `generate_random_id` produces.
pub const RANDOM_ID_LEN: usize = 16;

/// Shortest salt that key derivation accepts.
pub const MIN_SALT_LEN: usize = 8;

/// Length of the salts that `generate_key_salt` produces.
pub const KEY_SALT_LEN: usize = 16;

#[verifier::external_type_specification]
#[verifier::external_body]
pub struct ExPasswordHashError(argon2::password_hash::Error);

#[verifier::external_type_specification]
#[verifier::external_body]
pub struct ExArgon2Error(argon2::Error);

/// Whether a text parses as a PHC password-hash string.
pub uninterp spec fn phc_well_formed(record: Seq<char>) -> bool;

/// What Argon2 (default configuration) reports when checking `password`
/// against the PHC string `record`: `Some(true)` when recomputing the hash
/// with the record's salt and parameters gives the record's digest,
/// `Some(false)` on a mismatch, and `None` when the record's algorithm,
/// version or parameters cannot be used.
pub uninterp spec fn argon2_check(password: Seq<u8>, record: Seq<char>) -> Option<bool>;

/// Largest password or salt, in bytes, that Argon2 takes.
pub const ARGON2_MAX_INPUT_LEN: u64 = 4294967295;

/// The key that Argon2id with default parameters derives from a password
/// and a salt.
pub uninterp spec fn argon2_key(password: Seq<u8>, salt: Seq<u8>) -> Seq<u8>;

/// Relies on `SaltString::generate` with `OsRng` and on
/// `Argon2::hash_password`, whose PHC string (`PasswordHash`'s `Display`)
/// parses again and carries the salt, parameters and digest that
/// `verify_password` recomputes. With the default parameters and a
/// generated salt it fails only for passwords longer than `u32::MAX` bytes.
#[verifier::external_body]
fn argon2_hash(password: &[u8]) -> (r: Result<String, argon2::password_hash::Error>)
    ensures
        password@.len() <= ARGON2_MAX_INPUT_LEN ==> r is Ok,
        r is Ok ==> phc_well_formed(r->Ok_0@) && argon2_check(password@, r->Ok_0@) == Some(
            true,
        ),
{
    let salt = SaltString::generate(&mut OsRng);
    Argon2::default().hash_password(password, &salt).map(|h| h.to_string())
}

/// Relies on `PasswordHash::new`, which fails exactly on text that is not a
/// PHC string, and on `Argon2::verify_password`, whose outcome the password
/// and the record decide: `Ok` on a match, `Error::Password` on a mismatch,
/// another error when the record cannot be used.
#[verifier::external_body]
fn argon2_verify(password: &[u8], record: &str) -> (r: Result<bool, argon2::password_hash::Error>)
    ensures
        r is Ok <==> (phc_well_formed(record@) && argon2_check(password@, record@) is Some),
        r is Ok ==> Some(r->Ok_0) == argon2_check(password@, record@),
{
    let parsed = PasswordHash::new(record)?;
    match Argon2::default().verify_password(password, &parsed) {
        Ok(()) => Ok(true),
        Err(argon2::password_hash::Error::Password) => Ok(false),
        Err(e) => Err(e),
    }
}

/// Relies on `Argon2::hash_password_into` with default parameters, writing a
/// 32-byte output; it fails only on passwords over `u32::MAX` bytes and on
/// salts under eight or over `u32::MAX` bytes.
#[verifier::external_body]
fn argon2_derive(password: &[u8], salt: &[u8]) -> (r: Result<Vec<u8>, argon2::Error>)
    ensures
        password@.len() <= ARGON2_MAX_INPUT_LEN && MIN_SALT_LEN <= salt@.len()
            <= ARGON2_MAX_INPUT_LEN ==> r is Ok,
        r is Ok ==> r->Ok_0@ == argon2_key(password@, salt@) && r->Ok_0@.len() == KEY_LEN,
{
    let mut out = vec![0u8; KEY_LEN];
    Argon2::default().hash_password_into(password, salt, &mut out).map(|_| out)
}

/// Relies on rand's `SliceRandom::choose` with `thread_rng`: `None` for an
/// empty slice, otherwise one of its elements.
#[verifier::external_body]
fn choose_char(chars: &[char]) -> (r: Option<char>)
    ensures
        r is Some <==> chars@.len() > 0,
        r is Some ==> chars@.contains(r->0),
{
    chars.choose(&mut rand::thread_rng()).copied()
}

/// Relies on rand's `Alphanumeric` distribution sampled with `thread_rng`:
/// one byte of `A-Z`, `a-z` or `0-9`.
#[verifier::external_body]
fn sample_alphanumeric() -> (r: u8)
    ensures
        is_alphanumeric_code(r as u32),
{
    rand::thread_rng().sample(rand::distributions::Alphanumeric)
}

/// Whether a character code is an ASCII letter or digit.
pub open spec fn is_alphanumeric_code(x: u32) -> bool {
    (48 <= x <= 57) || (65 <= x <= 90) || (97 <= x <= 122)
}

/// The password hash record was produced for `password`: it is a PHC string
/// that Argon2 accepts for that password.
pub open spec fn is_record_for(password: Seq<char>, record: Seq<char>) -> bool {
    phc_well_formed(record) && argon2_check(encode_utf8(password), record) == Some(true)
}

/// What checking `password` against `record` reports: a match or a
/// mismatch, or `InvalidRecordError` for a record that is not a PHC string
/// or names an algorithm, version or parameters that cannot be used.
pub open spec fn verify_outcome(password: Seq<char>, record: Seq<char>) -> Result<bool, VaultError> {
    if phc_well_formed(record) && argon2_check(encode_utf8(password), record) is Some {
        Ok(argon2_check(encode_utf8(password), record)->0)
    } else {
        Err(VaultError::InvalidRecordError)
    }
}

/// Whether a password and a salt are within the sizes that key derivation
/// takes.
pub open spec fn key_inputs_in_range(password: Seq<char>, salt: Seq<u8>) -> bool {
    &&& encode_utf8(password).len() <= ARGON2_MAX_INPUT_LEN
    &&& MIN_SALT_LEN <= salt.len() <= ARGON2_MAX_INPUT_LEN
}

/// Hashes a master password with Argon2id under a fresh random salt, as a
/// PHC string. It succeeds on every password of at most `u32::MAX` bytes.
pub fn hash_master_password(password: &str) -> (r: Result<String, VaultError>)
    ensures
        encode_utf8(password@).len() <= ARGON2_MAX_INPUT_LEN ==> r is Ok,
        match r {
            Ok(record) => is_record_for(password@, record@),
            Err(e) => e == VaultError::HashingError,
        },
{
    match argon2_hash(password.as_bytes()) {
        Ok(record) => Ok(record),
        Err(_) => Err(VaultError::HashingError),
    }
}

/// Checks a master password against a stored hash record. A mismatch is
/// `Ok(false)`; only a malformed record is an error.
pub fn verify_master_password(password: &str, hash: &str) -> (r: Result<bool, VaultError>)
    ensures
        r == verify_outcome(password@, hash@),
{
    match argon2_verify(password.as_bytes(), hash) {
        Ok(b) => Ok(b),
        Err(_) => Err(VaultError::InvalidRecordError),
    }
}

/// A record that hashing a password produced verifies that same password.
pub proof fn lemma_hashed_password_verifies(password: Seq<char>, record: Seq<char>)
    requires
        is_record_for(password, record),
    ensures
        verify_outcome(password, record) == Ok::<bool, VaultError>(true),
{
}

/// Derives the session key from the master password and the persisted key
/// salt with Argon2id. Salts shorter than `MIN_SALT_LEN` are refused; it
/// succeeds whenever password and salt are within Argon2's size limits.
pub fn derive_session_key(password: &str, salt: &Vec<u8>) -> (r: Result<Vec<u8>, VaultError>)
    ensures
        key_inputs_in_range(password@, salt@) ==> r is Ok,
        salt@.len() < MIN_SALT_LEN ==> r == Err::<Vec<u8>, VaultError>(VaultError::HashingError),
        match r {
            Ok(key) => key@ == argon2_key(encode_utf8(password@), salt@) && key@.len() == KEY_LEN,
            Err(e) => e == VaultError::HashingError,
        },
{
    if salt.len() < MIN_SALT_LEN {
        return Err(VaultError::HashingError);
    }
    match argon2_derive(password.as_bytes(), salt.as_slice()) {
        Ok(key) => Ok(key),
        Err(_) => Err(VaultError::HashingError),
    }
}

/// A fresh random salt for key derivation, to be persisted beside the
/// master password's hash record.
pub fn generate_key_salt() -> (r: Vec<u8>)
    ensures
        r@.len() == KEY_SALT_LEN,
{
    random_bytes(KEY_SALT_LEN)
}

/// A random password of `length` characters, each drawn independently from
/// `PASSWORD_CHARS`.
pub fn generate_password(length: usize) -> (r: String)
    ensures
        r@.len() == length,
        forall|i: int| 0 <= i < length ==> PASSWORD_CHARS@.contains(#[trigger] r@[i]),
{
    let chars = chars_of(PASSWORD_CHARS);
    let mut out = String::new();
    let mut i: usize = 0;
    while i < length
        invariant
            chars@ == PASSWORD_CHARS@,
            i <= length,
            out@.len() == i,
            forall|j: int| 0 <= j < i ==> PASSWORD_CHARS@.contains(#[trigger] out@[j]),
        decreases length - i,
    {
        match choose_char(chars.as_slice()) {
            Some(c) => push_char(&mut out, c),
            None => {
                proof {
                    reveal_strlit(
                        "ABCDEFGHIJKLMNOPQRSTUVWXYZabcdefghijklmnopqrstuvwxyz0123456789!@#$%^&*()_+-=[]{}|;:,.<>?",
                    );
                }
                assert(false);
            },
        }
        i = i + 1;
    }
    out
}

/// A random identifier of `RANDOM_ID_LEN` ASCII letters and digits.
pub fn generate_random_id() -> (r: String)
    ensures
        r@.len() == RANDOM_ID_LEN,
        forall|i: int| 0 <= i < RANDOM_ID_LEN ==> is_alphanumeric_code(#[trigger] r@[i] as u32),
{
    let mut out = String::new();
    let mut i: usize = 0;
    while i < RANDOM_ID_LEN
        invariant
            i <= RANDOM_ID_LEN,
            out@.len() == i,
            forall|j: int| 0 <= j < i ==> is_alphanumeric_code(#[trigger] out@[j] as u32),
        decreases RANDOM_ID_LEN - i,
    {
        let b = sample_alphanumeric();
        let c = b as char;
        assert(c as u32 == b as u32);
        push_char(&mut out, c);
        i = i + 1;
    }
    out
}

} // verus!
