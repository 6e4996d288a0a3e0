use vstd::prelude::*;
use vstd::utf8::encode_utf8;

use crate::cipher::{
    decrypt_field, decrypt_outcome, encrypt_field, envelope_shape, is_envelope_of, text_result, KEY_LEN,
    MAX_MESSAGE_LEN,
};
use crate::crypto::{
    argon2_key, derive_session_key, key_inputs_in_range, verify_master_password, verify_outcome,
    MIN_SALT_LEN,
};
use crate::db::{has_id, lookup, opt_view, replaced, with_id, Database, Password, PasswordView};
use crate::error::VaultError;

verus! {

/// An unlocked vault session: it holds the key derived from a master
/// password that matched the stored hash record. A locked vault is simply
/// one for which no `Session` exists. Store operations that touch no secret
/// are made on the `Database` directly.
pub struct Session {
    key: Vec<u8>,
}

/// A record as plain values, built from its fields.
pub open spec fn record_view(
    id: Option<i64>,
    service: Seq<char>,
    username: Seq<char>,
    envelope: Seq<char>,
    notes: Option<Seq<char>>,
) -> PasswordView {
    PasswordView { id, service, username, password: envelope, notes }
}

impl Session {
    /// The session key.
    pub closed spec fn key(&self) -> Seq<u8> {
        self.key@
    }

    /// Unlocks a session: checks `password` against the stored hash
    /// `record`, and on a match derives the session key from `password` and
    /// the persisted `key_salt`. A wrong password is `AuthenticationFailed`,
    /// a malformed record `InvalidRecordError`; a matching password with a
    /// salt and password of sizes that key derivation takes always unlocks.
    pub fn unlock(password: &str, record: &str, key_salt: &Vec<u8>) -> (r: Result<
        Session,
        VaultError,
    >)
        ensures
            verify_outcome(password@, record@) is Err ==> r == Err::<Session, VaultError>(
                VaultError::InvalidRecordError,
            ),
            verify_outcome(password@, record@) == Ok::<bool, VaultError>(false) ==> r == Err::<
                Session,
                VaultError,
            >(VaultError::AuthenticationFailed),
            verify_outcome(password@, record@) == Ok::<bool, VaultError>(true) ==> match r {
                Ok(s) => s.key() == argon2_key(encode_utf8(password@), key_salt@),
                Err(e) => e == VaultError::HashingError,
            },
            verify_outcome(password@, record@) == Ok::<bool, VaultError>(true) && key_salt@.len()
                < MIN_SALT_LEN ==> r == Err::<Session, VaultError>(VaultError::HashingError),
            verify_outcome(password@, record@) == Ok::<bool, VaultError>(true)
                && key_inputs_in_range(password@, key_salt@) ==> r is Ok,
            r is Ok ==> r->Ok_0.key().len() == KEY_LEN,
    {
        match verify_master_password(password, record) {
            Err(e) => Err(e),
            Ok(false) => Err(VaultError::AuthenticationFailed),
            Ok(true) => match derive_session_key(password, key_salt) {
                Ok(key) => Ok(Session { key }),
                Err(e) => Err(e),
            },
        }
    }

    /// Encrypts `secret` under the session key and stores a new record with
    /// the given metadata; returns its id. Fails with `StorageError` once the
    /// store's id space is used up, leaving the store unchanged.
    pub fn add_credential(
        &self,
        db: &mut Database,
        service: &str,
        username: &str,
        secret: &str,
        notes: Option<String>,
    ) -> (r: Result<i64, VaultError>)
        requires
            self.key().len() == KEY_LEN,
            old(db).wf(),
            encode_utf8(secret@).len() < MAX_MESSAGE_LEN,
        ensures
            final(db).wf(),
            old(db).spec_next_id() < i64::MAX ==> {
                &&& r == Ok::<i64, VaultError>(old(db).spec_next_id())
                &&& final(db).spec_next_id() == old(db).spec_next_id() + 1
                &&& exists|envelope: Seq<char>|
                    {
                        &&& is_envelope_of(self.key(), envelope, secret@)
                        &&& envelope_shape(envelope, secret@)
                        &&& final(db).rows() == old(db).rows().push(
                            record_view(
                                Some(old(db).spec_next_id()),
                                service@,
                                username@,
                                envelope,
                                opt_view(notes),
                            ),
                        )
                    }
            },
            old(db).spec_next_id() == i64::MAX ==> {
                &&& r == Err::<i64, VaultError>(VaultError::StorageError)
                &&& final(db).rows() == old(db).rows()
                &&& final(db).spec_next_id() == old(db).spec_next_id()
            },
    {
        let envelope = encrypt_field(&self.key, secret);
        let ghost env = envelope@;
        let rec = Password {
            id: None,
            service: service.to_owned(),
            username: username.to_owned(),
            password: envelope,
            notes,
        };
        let r = db.add_password(&rec);
        proof {
            if r is Ok {
                assert(with_id(rec@, r->Ok_0) == record_view(
                    Some(r->Ok_0),
                    service@,
                    username@,
                    env,
                    opt_view(notes),
                ));
            }
        }
        r
    }

    /// Fetches the record with the id `id` and decrypts its secret. `Ok(None)`
    /// when there is no such record; a decryption failure (a record sealed
    /// under another key, or damaged) is reported as `decrypt_field` reports
    /// it.
    pub fn reveal_credential(&self, db: &Database, id: i64) -> (r: Result<
        Option<(Password, String)>,
        VaultError,
    >)
        requires
            self.key().len() == KEY_LEN,
            db.wf(),
        ensures
            lookup(db.rows(), id) is None ==> r == Ok::<Option<(Password, String)>, VaultError>(
                None,
            ),
            lookup(db.rows(), id) is Some ==> match r {
                Ok(Some((p, secret))) => {
                    &&& lookup(db.rows(), id) == Some(p@)
                    &&& decrypt_outcome(self.key(), p@.password, Ok(secret@))
                },
                Ok(None) => false,
                Err(e) => decrypt_outcome(
                    self.key(),
                    lookup(db.rows(), id)->0.password,
                    Err(e),
                ),
            },
    {
        match db.get_password(id) {
            None => Ok(None),
            Some(p) => {
                let opened = decrypt_field(&self.key, p.password.as_str());
                assert(decrypt_outcome(self.key(), p@.password, text_result(opened)));
                match opened {
                    Ok(secret) => Ok(Some((p, secret))),
                    Err(e) => Err(e),
                }
            },
        }
    }

    /// Replaces the metadata of the record with the id `id`; when `secret`
    /// is given, the record's envelope is replaced by a fresh encryption of
    /// it, otherwise the envelope is kept. Fails with `NotFound`, leaving
    /// the store unchanged, when there is no such record.
    pub fn update_credential(
        &self,
        db: &mut Database,
        id: i64,
        service: &str,
        username: &str,
        secret: Option<&str>,
        notes: Option<String>,
    ) -> (r: Result<(), VaultError>)
        requires
            self.key().len() == KEY_LEN,
            old(db).wf(),
            secret is Some ==> encode_utf8(secret->0@).len() < MAX_MESSAGE_LEN,
        ensures
            final(db).wf(),
            final(db).spec_next_id() == old(db).spec_next_id(),
            r is Ok <==> has_id(old(db).rows(), id),
            r is Err ==> r == Err::<(), VaultError>(VaultError::NotFound) && final(db).rows()
                == old(db).rows(),
            r is Ok ==> exists|envelope: Seq<char>|
                {
                    &&& match secret {
                        Some(s) => is_envelope_of(self.key(), envelope, s@) && envelope_shape(
                            envelope,
                            s@,
                        ),
                        None => envelope == lookup(old(db).rows(), id)->0.password,
                    }
                    &&& final(db).rows() == replaced(
                        old(db).rows(),
                        record_view(Some(id), service@, username@, envelope, opt_view(notes)),
                    )
                },
    {
        let current = match db.get_password(id) {
            Some(p) => p,
            None => {
                return Err(VaultError::NotFound);
            },
        };
        let envelope = match secret {
            Some(s) => encrypt_field(&self.key, s),
            None => current.password,
        };
        let ghost env = envelope@;
        let rec = Password {
            id: Some(id),
            service: service.to_owned(),
            username: username.to_owned(),
            password: envelope,
            notes,
        };
        let r = db.update_password(&rec);
        assert(rec@ == record_view(Some(id), service@, username@, env, opt_view(notes)));
        r
    }
}

} // verus!
