//! The security core of a local, single-user credential vault: master
//! password hashing and key derivation (Argon2), authenticated encryption of
//! secret fields (ChaCha20-Poly1305) in a hex text envelope, the record
//! table, and the unlocked session that ties a key to the table.

pub mod cipher;
pub mod config;
pub mod crypto;
pub mod db;
pub mod envelope;
pub mod error;
pub mod session;
pub mod text;
