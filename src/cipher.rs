use crate::error::{Error, ErrorKind};
use chacha20poly1305::aead::Aead;
use chacha20poly1305::{Key, KeyInit, XChaCha20Poly1305, XNonce};
use vstd::prelude::*;

verus! {

/// Length of a symmetric key in bytes.
pub const KEY_SIZE: usize = 32;

/// Length of a nonce in bytes.
pub const NONCE_SIZE: usize = 24;

/// Length of the authentication tag that each ciphertext carries.
pub const TAG_SIZE: usize = 16;

/// Plaintexts from this length on are refused by the cipher (its block counter is 32 bits).
pub const MAX_PLAINTEXT: u64 = 64 * 0xffff_ffff;

/// The XChaCha20-Poly1305 ciphertext (with its tag) of `plaintext` under `key` and `nonce`.
pub uninterp spec fn sealed(key: Seq<u8>, nonce: Seq<u8>, plaintext: Seq<u8>) -> Seq<u8>;

/// What XChaCha20-Poly1305 decryption of `ciphertext` under `key` and `nonce` yields:
/// `None` where the tag does not authenticate it.
pub uninterp spec fn opened(key: Seq<u8>, nonce: Seq<u8>, ciphertext: Seq<u8>) -> Option<Seq<u8>>;

/// Relies on `XChaCha20Poly1305::encrypt` of chacha20poly1305: the ciphertext is the
/// plaintext's length plus a 16-byte tag, decrypts back to the plaintext, and is refused
/// only from `MAX_PLAINTEXT` bytes on. `Key::from_slice` and `XNonce::from_slice` panic
/// on other lengths than 32 and 24.
#[verifier::external_body]
fn xchacha_seal(key: &[u8], nonce: &[u8], plaintext: &[u8]) -> (r: Option<Vec<u8>>)
    requires
        key@.len() == KEY_SIZE,
        nonce@.len() == NONCE_SIZE,
    ensures
        plaintext@.len() < MAX_PLAINTEXT ==> r is Some,
        r matches Some(c) ==> c@ == sealed(key@, nonce@, plaintext@) && c@.len()
            == plaintext@.len() + TAG_SIZE && opened(key@, nonce@, c@) == Some(plaintext@),
{
    let cipher = XChaCha20Poly1305::new(Key::from_slice(key));
    cipher.encrypt(XNonce::from_slice(nonce), plaintext).ok()
}

/// Relies on `XChaCha20Poly1305::decrypt` of chacha20poly1305: it succeeds exactly when
/// the tag authenticates the ciphertext, which then is the plaintext followed by its
/// 16-byte tag, and what it returns encrypts back to that ciphertext.
#[verifier::external_body]
fn xchacha_open(key: &[u8], nonce: &[u8], ciphertext: &[u8]) -> (r: Option<Vec<u8>>)
    requires
        key@.len() == KEY_SIZE,
        nonce@.len() == NONCE_SIZE,
    ensures
        r matches Some(p) ==> opened(key@, nonce@, ciphertext@) == Some(p@) && sealed(
            key@,
            nonce@,
            p@,
        ) == ciphertext@ && ciphertext@.len() == p@.len() + TAG_SIZE,
        r is None ==> opened(key@, nonce@, ciphertext@) is None,
{
    let cipher = XChaCha20Poly1305::new(Key::from_slice(key));
    cipher.decrypt(XNonce::from_slice(nonce), ciphertext).ok()
}

/// The symmetric cipher provider: XChaCha20-Poly1305, an authenticated construction.
#[derive(Clone, Copy, Debug, PartialEq, Eq, Structural)]
pub struct ChaCha20Poly1305;

impl ChaCha20Poly1305 {
    /// Encrypts `plaintext` under `key` with `nonce`; the result carries a 16-byte tag.
    pub fn encrypt(&self, plaintext: &[u8], key: &[u8], nonce: &[u8]) -> (r: Result<
        Vec<u8>,
        Error,
    >)
        requires
            key@.len() == KEY_SIZE,
            nonce@.len() == NONCE_SIZE,
        ensures
            r is Ok <==> plaintext@.len() < MAX_PLAINTEXT,
            r matches Ok(c) ==> c@ == sealed(key@, nonce@, plaintext@) && opened(
                key@,
                nonce@,
                c@,
            ) == Some(plaintext@) && c@.len() == plaintext@.len() + TAG_SIZE,
            r matches Err(e) ==> e.kind == ErrorKind::Crypto,
    {
        if plaintext.len() as u64 >= MAX_PLAINTEXT {
            return Err(Error::new(ErrorKind::Crypto, "plaintext too long"));
        }
        match xchacha_seal(key, nonce, plaintext) {
            Some(c) => Ok(c),
            None => Err(Error::new(ErrorKind::Crypto, "plaintext too long")),
        }
    }

    /// Decrypts `ciphertext` under `key` with `nonce`, failing closed: a ciphertext whose
    /// tag does not authenticate gives an integrity error and no plaintext.
    pub fn decrypt(&self, ciphertext: &[u8], key: &[u8], nonce: &[u8]) -> (r: Result<
        Vec<u8>,
        Error,
    >)
        requires
            key@.len() == KEY_SIZE,
            nonce@.len() == NONCE_SIZE,
        ensures
            match opened(key@, nonce@, ciphertext@) {
                Some(p) => r matches Ok(q) && q@ == p,
                None => r matches Err(e) && e.kind == ErrorKind::Integrity,
            },
            r matches Ok(p) ==> sealed(key@, nonce@, p@) == ciphertext@ && ciphertext@.len()
                == p@.len() + TAG_SIZE,
    {
        match xchacha_open(key, nonce, ciphertext) {
            Some(p) => Ok(p),
            None => Err(Error::new(ErrorKind::Integrity, "authentication failed")),
        }
    }
}

} // verus!
