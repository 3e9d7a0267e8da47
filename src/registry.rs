use crate::cipher::ChaCha20Poly1305;
use crate::error::{Error, ErrorKind};
use crate::hashing::{Argon2id, Scrypt};
use vstd::prelude::*;

verus! {

/// Whether two texts are the same.
pub fn same_text(a: &str, b: &str) -> (r: bool)
    ensures
        r == (a@ == b@),
{
    a.to_owned() == b.to_owned()
}

/// The cloud key vault backends that can be selected.
#[derive(Clone, Copy, Debug, PartialEq, Eq, Structural)]
pub enum CloudProvider {
    /// Google Cloud KMS.
    Gcp,
}

/// The selector of each capability that the registry knows.
pub open spec fn encryption_selector() -> Seq<char> {
    "chacha20poly1305"@
}

pub open spec fn hashing_selector() -> Seq<char> {
    "argon2id"@
}

pub open spec fn key_derivation_selector() -> Seq<char> {
    "scrypt"@
}

pub open spec fn envelope_selector() -> Seq<char> {
    "gcp"@
}

/// One implementation per capability, chosen once from configuration and fixed thereafter.
#[derive(Clone, Copy, Debug, PartialEq, Eq, Structural)]
pub struct CryptoProvider {
    encryption_provider: ChaCha20Poly1305,
    hashing_provider: Argon2id,
    cloud_provider: CloudProvider,
}

impl CryptoProvider {
    /// Selects the providers named by the four selectors; an unknown selector is a
    /// configuration error.
    pub fn new(encryption: &str, hashing: &str, key_derivation: &str, envelope: &str) -> (r:
        Result<CryptoProvider, Error>)
        ensures
            r is Ok <==> encryption@ == encryption_selector() && hashing@ == hashing_selector()
                && key_derivation@ == key_derivation_selector() && envelope@
                == envelope_selector(),
            r matches Err(e) ==> e.kind == ErrorKind::Configuration,
    {
        proof {
            reveal_strlit("chacha20poly1305");
            reveal_strlit("argon2id");
            reveal_strlit("scrypt");
            reveal_strlit("gcp");
        }
        let encryption_provider = Self::construct_encryption(encryption)?;
        let hashing_provider = Self::construct_hashing(hashing)?;
        let _ = Self::construct_key_derivation(key_derivation)?;
        let cloud_provider = Self::construct_envelope(envelope)?;
        Ok(CryptoProvider {
            encryption_provider,
            hashing_provider,
            cloud_provider,
        })
    }

    fn construct_encryption(encryption: &str) -> (r: Result<ChaCha20Poly1305, Error>)
        ensures
            r is Ok <==> encryption@ == encryption_selector(),
            r matches Err(e) ==> e.kind == ErrorKind::Configuration,
    {
        if same_text(encryption, "chacha20poly1305") {
            Ok(ChaCha20Poly1305)
        } else {
            Err(Error::new(ErrorKind::Configuration, "encryption provider not found"))
        }
    }

    fn construct_hashing(hashing: &str) -> (r: Result<Argon2id, Error>)
        ensures
            r is Ok <==> hashing@ == hashing_selector(),
            r matches Err(e) ==> e.kind == ErrorKind::Configuration,
    {
        if same_text(hashing, "argon2id") {
            Ok(Argon2id)
        } else {
            Err(Error::new(ErrorKind::Configuration, "hashing provider not found"))
        }
    }

    fn construct_key_derivation(key_derivation: &str) -> (r: Result<Scrypt, Error>)
        ensures
            r is Ok <==> key_derivation@ == key_derivation_selector(),
            r matches Ok(k) ==> k.log_n == 17 && k.r == 8 && k.p == 1,
            r matches Err(e) ==> e.kind == ErrorKind::Configuration,
    {
        if same_text(key_derivation, "scrypt") {
            Ok(Scrypt::recommended())
        } else {
            Err(Error::new(ErrorKind::Configuration, "key derivation provider not found"))
        }
    }

    fn construct_envelope(envelope: &str) -> (r: Result<CloudProvider, Error>)
        ensures
            r is Ok <==> envelope@ == envelope_selector(),
            r matches Err(e) ==> e.kind == ErrorKind::Configuration,
    {
        if same_text(envelope, "gcp") {
            Ok(CloudProvider::Gcp)
        } else {
            Err(Error::new(ErrorKind::Configuration, "envelope provider not found"))
        }
    }

    pub fn encryption(&self) -> (r: ChaCha20Poly1305) {
        self.encryption_provider
    }

    pub fn hashing(&self) -> (r: Argon2id) {
        self.hashing_provider
    }

    /// The key-derivation provider, at the recommended cost.
    pub fn key_derivation(&self) -> (r: Scrypt)
        ensures
            r.log_n == 17 && r.r == 8 && r.p == 1,
    {
        Scrypt::recommended()
    }

    pub fn cloud(&self) -> (r: CloudProvider)
        ensures
            r == CloudProvider::Gcp,
    {
        self.cloud_provider
    }
}

} // verus!
