use vstd::prelude::*;

verus! {

/// The failures that vault operations report to their callers.
#[derive(Debug, Clone, Copy, PartialEq, Eq, Structural)]
pub enum VaultError {
    /// Wrong master password, or an envelope whose tag does not verify
    /// under the session key. The two are deliberately not told apart.
    AuthenticationFailed,
    /// An envelope that is not well-formed text, or too short to hold a
    /// nonce and a tag.
    CorruptEnvelope,
    /// The operation named a record id that the store does not hold.
    NotFound,
    /// The store cannot complete the operation (its id space is used up,
    /// or loaded rows break its invariant).
    StorageError,
    /// The key-derivation or hashing primitive could not produce output.
    HashingError,
    /// A stored password-hash record is not in the expected format.
    InvalidRecordError,
}

} // verus!
