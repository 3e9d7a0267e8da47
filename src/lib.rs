//! Key management and envelope encryption.
//!
//! A master key, held in plaintext only in memory and wrapped by a cloud key vault for
//! storage, wraps a fresh data-encryption key (DEK) for every protected value. The master
//! key store keeps every master key ever made, at most one of them active, so that values
//! protected under a retired key still decrypt. Large payloads go through a chunked
//! authenticated stream whose chunk nonces fix each chunk's position and mark the last.
//!
//! Everything that needs the network or the clock (the vault, the time of a rotation)
//! reaches this library as plain values: the decisions are made and proved here.

pub mod cipher;
pub mod codec;
pub mod config;
pub mod dek;
pub mod error;
pub mod hashing;
pub mod kms;
pub mod registry;
pub mod store;
pub mod stream;
pub mod validators;
pub mod value;
pub mod vault;
