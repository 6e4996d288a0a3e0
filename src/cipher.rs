use vstd::prelude::*;
use vstd::utf8::{encode_utf8, valid_utf8};

use chacha20poly1305::aead::{Aead, KeyInit};
use chacha20poly1305::{ChaCha20Poly1305, Key, Nonce};
use rand::RngCore;

use crate::envelope::{decode_envelope, encode_envelope, hex_decode, hex_text, lemma_hex_round_trip};
use crate::error::VaultError;
use crate::text::string_from_utf8;
use vstd::slice::slice_subrange;

verus! {

broadcast use vstd::utf8::encode_utf8_valid_utf8, vstd::utf8::encode_utf8_decode_utf8, vstd::utf8::decode_utf8_encode_utf8;

/// Length in bytes of a session key.
pub const KEY_LEN: usize = 32;

/// Length in bytes of the random nonce at the front of every envelope.
pub const NONCE_LEN: usize = 12;

/// Length in bytes of the authentication tag that follows the ciphertext.
pub const TAG_LEN: usize = 16;

/// Messages of this many bytes or more are beyond the cipher's block counter.
pub const MAX_MESSAGE_LEN: u64 = 274877906880;

#[verifier::external_type_specification]
#[verifier::external_body]
pub struct ExAeadError(chacha20poly1305::Error);

/// What ChaCha20-Poly1305 yields for a key, a nonce and a message: the
/// ciphertext followed by the tag.
pub uninterp spec fn aead_seal(key: Seq<u8>, nonce: Seq<u8>, message: Seq<u8>) -> Seq<u8>;

/// Relies on `ChaCha20Poly1305::encrypt` (the `aead::Aead` method, no
/// associated data): it fails only for messages whose block count reaches
/// `u32::MAX`, and otherwise appends a 16-byte tag to the ciphertext.
#[verifier::external_body]
fn aead_encrypt(key: &[u8], nonce: &[u8], message: &[u8]) -> (r: Result<
    Vec<u8>,
    chacha20poly1305::Error,
>)
    requires
        key@.len() == KEY_LEN,
        nonce@.len() == NONCE_LEN,
    ensures
        r is Ok <==> message@.len() < MAX_MESSAGE_LEN,
        r is Ok ==> r->Ok_0@ == aead_seal(key@, nonce@, message@),
        r is Ok ==> r->Ok_0@.len() == message@.len() + TAG_LEN,
{
    ChaCha20Poly1305::new(Key::from_slice(key)).encrypt(Nonce::from_slice(nonce), message)
}

/// Relies on `ChaCha20Poly1305::decrypt` (the `aead::Aead` method, no
/// associated data): it returns a message exactly when the trailing tag
/// verifies, and then the message is the one whose encryption under this
/// key and nonce is `sealed`; it refuses inputs beyond the block counter.
#[verifier::external_body]
fn aead_decrypt(key: &[u8], nonce: &[u8], sealed: &[u8]) -> (r: Result<
    Vec<u8>,
    chacha20poly1305::Error,
>)
    requires
        key@.len() == KEY_LEN,
        nonce@.len() == NONCE_LEN,
    ensures
        r is Ok ==> sealed@ == aead_seal(key@, nonce@, r->Ok_0@) && r->Ok_0@.len()
            < MAX_MESSAGE_LEN,
        forall|m: Seq<u8>|
            sealed@ == #[trigger] aead_seal(key@, nonce@, m) && m.len() < MAX_MESSAGE_LEN ==> r
                is Ok && r->Ok_0@ == m,
{
    ChaCha20Poly1305::new(Key::from_slice(key)).decrypt(Nonce::from_slice(nonce), sealed)
}

/// Relies on rand's `thread_rng` (a cryptographically secure generator
/// seeded from the OS) and `RngCore::fill_bytes`: `n` bytes of its output.
#[verifier::external_body]
pub(crate) fn random_bytes(n: usize) -> (r: Vec<u8>)
    ensures
        r@.len() == n,
{
    let mut b = vec![0u8; n];
    rand::thread_rng().fill_bytes(&mut b);
    b
}

/// The envelope text for a nonce and the sealed bytes that follow it.
pub open spec fn envelope_text(nonce: Seq<u8>, sealed: Seq<u8>) -> Seq<char> {
    hex_text(nonce + sealed)
}

/// The envelope that sealing `plaintext` under `key` with `nonce` yields.
pub open spec fn sealed_envelope(key: Seq<u8>, nonce: Seq<u8>, plaintext: Seq<char>) -> Seq<char> {
    envelope_text(nonce, aead_seal(key, nonce, encode_utf8(plaintext)))
}

/// Whether `envelope` is the sealing of `plaintext` under `key` with some
/// nonce of the right length.
pub open spec fn is_envelope_of(key: Seq<u8>, envelope: Seq<char>, plaintext: Seq<char>) -> bool {
    exists|nonce: Seq<u8>|
        nonce.len() == NONCE_LEN && envelope == #[trigger] sealed_envelope(key, nonce, plaintext)
}

/// Whether an envelope's text decodes to at least a nonce's worth of bytes.
pub open spec fn well_formed_envelope(envelope: Seq<char>) -> bool {
    hex_decode(envelope) is Some && hex_decode(envelope)->0.len() >= NONCE_LEN
}

/// The nonce part of a well-formed envelope.
pub open spec fn envelope_nonce(envelope: Seq<char>) -> Seq<u8> {
    hex_decode(envelope)->0.take(NONCE_LEN as int)
}

/// The sealed part (ciphertext and tag) of a well-formed envelope.
pub open spec fn envelope_sealed(envelope: Seq<char>) -> Seq<u8> {
    hex_decode(envelope)->0.skip(NONCE_LEN as int)
}

/// Whether the sealed part of a well-formed envelope verifies under `key`
/// as the sealing of the byte string `m`.
pub open spec fn opens_to_bytes(key: Seq<u8>, envelope: Seq<char>, m: Seq<u8>) -> bool {
    &&& envelope_sealed(envelope) == aead_seal(key, envelope_nonce(envelope), m)
    &&& m.len() < MAX_MESSAGE_LEN
}

/// A decryption result with the text as plain characters.
pub open spec fn text_result(r: Result<String, VaultError>) -> Result<Seq<char>, VaultError> {
    match r {
        Ok(s) => Ok(s@),
        Err(e) => Err(e),
    }
}

/// What decrypting `envelope` under `key` may report.
///
/// Text that is not an envelope, or holds fewer bytes than a nonce, is
/// `CorruptEnvelope`; an envelope whose tag does not verify under `key` is
/// `AuthenticationFailed`; one that verifies but does not hold UTF-8 text
/// is `CorruptEnvelope`; otherwise the text is the one that was sealed.
/// In particular, the sealing of any text under `key` opens to that text.
pub open spec fn decrypt_outcome(
    key: Seq<u8>,
    envelope: Seq<char>,
    r: Result<Seq<char>, VaultError>,
) -> bool {
    &&& !well_formed_envelope(envelope) ==> r == Err::<Seq<char>, VaultError>(
        VaultError::CorruptEnvelope,
    )
    &&& well_formed_envelope(envelope) ==> match r {
        Ok(p) => opens_to_bytes(key, envelope, encode_utf8(p)),
        Err(VaultError::AuthenticationFailed) => forall|m: Seq<u8>|
            !opens_to_bytes(key, envelope, m),
        Err(VaultError::CorruptEnvelope) => exists|m: Seq<u8>|
            opens_to_bytes(key, envelope, m) && !valid_utf8(m),
        Err(_) => false,
    }
    &&& forall|p: Seq<char>|
        is_envelope_of(key, envelope, p) && encode_utf8(p).len() < MAX_MESSAGE_LEN ==> r
            == Ok::<Seq<char>, VaultError>(p)
}

/// The shape of an envelope sealed for `plaintext`: its text decodes to a
/// nonce, one ciphertext byte per byte of the plaintext's UTF-8 encoding,
/// and a tag; and the envelope is not the plaintext itself.
pub open spec fn envelope_shape(envelope: Seq<char>, plaintext: Seq<char>) -> bool {
    &&& hex_decode(envelope) is Some
    &&& hex_decode(envelope)->0.len() == NONCE_LEN + encode_utf8(plaintext).len() + TAG_LEN
    &&& envelope != plaintext
}

/// UTF-8 takes at least one byte per character.
proof fn lemma_utf8_len(chars: Seq<char>)
    ensures
        encode_utf8(chars).len() >= chars.len(),
    decreases chars.len(),
{
    if chars.len() > 0 {
        lemma_utf8_len(chars.drop_first());
    }
}

/// Seals `plaintext` under `key` with the given nonce and writes the
/// envelope: nonce, ciphertext and tag, in text form.
pub fn seal_field(key: &Vec<u8>, nonce: &Vec<u8>, plaintext: &str) -> (r: String)
    requires
        key@.len() == KEY_LEN,
        nonce@.len() == NONCE_LEN,
        encode_utf8(plaintext@).len() < MAX_MESSAGE_LEN,
    ensures
        r@ == sealed_envelope(key@, nonce@, plaintext@),
        envelope_shape(r@, plaintext@),
{
    let sealed = aead_encrypt(key.as_slice(), nonce.as_slice(), plaintext.as_bytes());
    match sealed {
        Ok(s) => {
            let mut bytes = nonce.clone();
            let mut tail = s;
            bytes.append(&mut tail);
            proof {
                lemma_hex_round_trip(bytes@);
                lemma_utf8_len(plaintext@);
            }
            encode_envelope(&bytes)
        },
        Err(_) => {
            assert(false);
            String::new()
        },
    }
}

/// Encrypts `plaintext` under `key` with a fresh random nonce.
pub fn encrypt_field(key: &Vec<u8>, plaintext: &str) -> (r: String)
    requires
        key@.len() == KEY_LEN,
        encode_utf8(plaintext@).len() < MAX_MESSAGE_LEN,
    ensures
        is_envelope_of(key@, r@, plaintext@),
        envelope_shape(r@, plaintext@),
{
    let nonce = random_bytes(NONCE_LEN);
    let r = seal_field(key, &nonce, plaintext);
    assert(r@ == sealed_envelope(key@, nonce@, plaintext@));
    r
}

/// Decrypts an envelope under `key`. Decrypting what `encrypt_field`
/// produced under the same key gives back its plaintext.
pub fn decrypt_field(key: &Vec<u8>, envelope: &str) -> (r: Result<String, VaultError>)
    requires
        key@.len() == KEY_LEN,
    ensures
        decrypt_outcome(key@, envelope@, text_result(r)),
{
    let r = match decode_envelope(envelope) {
        None => Err(VaultError::CorruptEnvelope),
        Some(bytes) => {
            if bytes.len() < NONCE_LEN {
                Err(VaultError::CorruptEnvelope)
            } else {
                let nonce = slice_subrange(bytes.as_slice(), 0, NONCE_LEN);
                let sealed = slice_subrange(bytes.as_slice(), NONCE_LEN, bytes.len());
                assert(nonce@ == envelope_nonce(envelope@));
                assert(sealed@ == envelope_sealed(envelope@));
                match aead_decrypt(key.as_slice(), nonce, sealed) {
                    Err(_) => Err(VaultError::AuthenticationFailed),
                    Ok(m) => {
                        let ghost mv = m@;
                        assert(opens_to_bytes(key@, envelope@, mv));
                        match string_from_utf8(m) {
                            Some(text) => Ok(text),
                            None => Err(VaultError::CorruptEnvelope),
                        }
                    },
                }
            }
        },
    };
    assert forall|p: Seq<char>|
        is_envelope_of(key@, envelope@, p) && encode_utf8(p).len() < MAX_MESSAGE_LEN implies r is Ok
            && r->Ok_0@ == p by {
        let nonce = choose|nonce: Seq<u8>|
            nonce.len() == NONCE_LEN && envelope@ == #[trigger] sealed_envelope(key@, nonce, p);
        lemma_sealed_envelope_parts(key@, nonce, p);
        assert(opens_to_bytes(key@, envelope@, encode_utf8(p)));
    }
    r
}

/// The parts that a sealed envelope decodes to.
proof fn lemma_sealed_envelope_parts(key: Seq<u8>, nonce: Seq<u8>, plaintext: Seq<char>)
    requires
        nonce.len() == NONCE_LEN,
    ensures
        well_formed_envelope(sealed_envelope(key, nonce, plaintext)),
        envelope_nonce(sealed_envelope(key, nonce, plaintext)) == nonce,
        envelope_sealed(sealed_envelope(key, nonce, plaintext)) == aead_seal(
            key,
            nonce,
            encode_utf8(plaintext),
        ),
{
    let sealed = aead_seal(key, nonce, encode_utf8(plaintext));
    lemma_hex_round_trip(nonce + sealed);
    assert((nonce + sealed).take(NONCE_LEN as int) =~= nonce);
    assert((nonce + sealed).skip(NONCE_LEN as int) =~= sealed);
}


/// Round trip: whatever `decrypt_field` reports for an envelope that
/// `encrypt_field` produced for `plaintext` under the same key is
/// `plaintext` itself.
pub proof fn lemma_decrypt_encrypted(
    key: Seq<u8>,
    plaintext: Seq<char>,
    envelope: Seq<char>,
    r: Result<Seq<char>, VaultError>,
)
    requires
        encode_utf8(plaintext).len() < MAX_MESSAGE_LEN,
        is_envelope_of(key, envelope, plaintext),
        decrypt_outcome(key, envelope, r),
    ensures
        r == Ok::<Seq<char>, VaultError>(plaintext),
{
}

/// A text that `decrypt_field` returns is always the one sealed in the
/// envelope under the given key and the envelope's own nonce: an envelope
/// whose sealed part is not such a sealing yields no text at all.
pub proof fn lemma_decrypted_text_was_sealed(
    key: Seq<u8>,
    envelope: Seq<char>,
    plaintext: Seq<char>,
)
    requires
        decrypt_outcome(key, envelope, Ok(plaintext)),
    ensures
        well_formed_envelope(envelope),
        envelope_sealed(envelope) == aead_seal(
            key,
            envelope_nonce(envelope),
            encode_utf8(plaintext),
        ),
{
}

} // verus!
