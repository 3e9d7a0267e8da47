use crate::error::{Error, ErrorKind};
use argon2::password_hash::{PasswordHash, PasswordHasher, PasswordVerifier, SaltString};
use argon2::Argon2;
use rand_core::OsRng;
use vstd::prelude::*;

verus! {

/// The PHC string that Argon2id with default parameters makes of `plaintext` and the
/// B64-encoded `salt`.
pub uninterp spec fn argon2_phc(plaintext: Seq<u8>, salt: Seq<char>) -> Seq<char>;

/// Whether Argon2 verification accepts `plaintext` against the PHC string `phc`.
pub uninterp spec fn argon2_verifies(plaintext: Seq<u8>, phc: Seq<char>) -> bool;

/// Whether `phc` parses as a PHC password hash string.
pub uninterp spec fn phc_parses(phc: Seq<char>) -> bool;

/// Longest password that Argon2 accepts, in bytes.
pub const MAX_PASSWORD_LEN: u64 = 0xffff_ffff;

/// The standard Base64 alphabet.
pub open spec fn b64_alphabet() -> Seq<char> {
    "ABCDEFGHIJKLMNOPQRSTUVWXYZabcdefghijklmnopqrstuvwxyz0123456789+/"@
}

/// The character of the six-bit value `v`.
pub open spec fn b64_digit(v: int) -> char {
    b64_alphabet()[v]
}

/// Standard Base64 of `b` without padding: each three bytes give four characters, and a
/// tail of one or two bytes gives two or three.
pub open spec fn b64_unpadded(b: Seq<u8>) -> Seq<char>
    decreases b.len(),
{
    if b.len() == 0 {
        Seq::empty()
    } else if b.len() == 1 {
        seq![b64_digit((b[0] as int) / 4), b64_digit(((b[0] as int) % 4) * 16)]
    } else if b.len() == 2 {
        seq![
            b64_digit((b[0] as int) / 4),
            b64_digit(((b[0] as int) % 4) * 16 + (b[1] as int) / 16),
            b64_digit(((b[1] as int) % 16) * 4),
        ]
    } else {
        seq![
            b64_digit((b[0] as int) / 4),
            b64_digit(((b[0] as int) % 4) * 16 + (b[1] as int) / 16),
            b64_digit(((b[1] as int) % 16) * 4 + (b[2] as int) / 64),
            b64_digit((b[2] as int) % 64),
        ] + b64_unpadded(b.skip(3))
    }
}

/// `salt` is the unpadded Base64 of some 16 bytes.
pub open spec fn encodes_16_bytes(salt: Seq<char>) -> bool {
    exists|b: Seq<u8>| b.len() == 16 && salt == #[trigger] b64_unpadded(b)
}

/// A salt that Argon2 hashing accepts: the unpadded Base64 of 8 to 48 bytes.
pub open spec fn accepted_salt(salt: Seq<char>) -> bool {
    exists|b: Seq<u8>| 8 <= b.len() <= 48 && salt == #[trigger] b64_unpadded(b)
}

/// The scrypt key of `output_length` bytes that the cost parameters `log_n`, `r` and `p`
/// derive from `input` and `salt`.
pub uninterp spec fn scrypt_key(
    input: Seq<u8>,
    salt: Seq<u8>,
    log_n: u8,
    r: u32,
    p: u32,
    output_length: nat,
) -> Seq<u8>;

/// Relies on `SaltString::from_b64` and `PasswordHasher::hash_password` of
/// `Argon2::default()` (argon2 with password-hash): the PHC string of the hash, which parses
/// and which verification accepts for the same plaintext. `from_b64` takes 4 to 64
/// characters of `[A-Za-z0-9/+.-]`; hashing decodes the salt as unpadded Base64 and needs
/// at least 8 bytes of it, and refuses passwords over `0xFFFF_FFFF` bytes.
#[verifier::external_body]
fn argon2_hash(plaintext: &[u8], salt: &str) -> (r: Option<String>)
    ensures
        r matches Some(h) ==> h@ == argon2_phc(plaintext@, salt@) && argon2_verifies(
            plaintext@,
            h@,
        ) && phc_parses(h@),
        plaintext@.len() <= MAX_PASSWORD_LEN && accepted_salt(salt@) ==> r is Some,
{
    let salt = SaltString::from_b64(salt).ok()?;
    Argon2::default().hash_password(plaintext, &salt).ok().map(|h| h.to_string())
}

/// Relies on `SaltString::generate` with the operating system's random generator
/// (`rand_core::OsRng`): the unpadded Base64 of 16 random bytes. Nothing is promised of
/// the bytes.
#[verifier::external_body]
fn random_salt() -> (r: String)
    ensures
        encodes_16_bytes(r@),
{
    SaltString::generate(&mut OsRng).as_str().to_owned()
}

/// Relies on `PasswordHash::new` and `PasswordVerifier::verify_password` of
/// `Argon2::default()`: `None` exactly where `phc` does not parse, else whether the
/// plaintext matches; a mismatch, like any failure of `verify_password`, is `false`.
#[verifier::external_body]
fn argon2_verify(plaintext: &[u8], phc: &str) -> (r: Option<bool>)
    ensures
        match r {
            Some(b) => b == argon2_verifies(plaintext@, phc@) && phc_parses(phc@),
            None => !phc_parses(phc@) && !argon2_verifies(plaintext@, phc@),
        },
{
    let hash = PasswordHash::new(phc).ok()?;
    Some(Argon2::default().verify_password(plaintext, &hash).is_ok())
}

/// Relies on `scrypt::Params::new` and `scrypt::scrypt`: with parameters that the first
/// accepts, the second fills an output of the requested length, refusing only an empty
/// one or one over (2^32 - 1) * 32 bytes. Among the accepted parameters are those with
/// `log_n` up to 20 and below `16 * r`, `r` up to 8 and `p` equal to 1.
#[verifier::external_body]
fn scrypt_derive(input: &[u8], salt: &[u8], log_n: u8, r: u32, p: u32, output_length: usize) -> (res: Option<Vec<u8>>)
    ensures
        match res {
            Some(k) => k@ == scrypt_key(input@, salt@, log_n, r, p, output_length as nat)
                && k@.len() == output_length && output_length > 0 && output_length / 32
                <= 0xffff_ffff,
            None => true,
        },
        log_n <= 20 && log_n < 16 * r && r <= 8 && p == 1 && output_length > 0 && output_length
            / 32 <= 0xffff_ffff ==> res is Some,
{
    let params = scrypt::Params::new(log_n, r, p, 32).ok()?;
    let mut output: Vec<u8> = vec![0; output_length];
    scrypt::scrypt(input, salt, &params, &mut output).ok()?;
    Some(output)
}

/// The password-hashing provider: Argon2id, memory-hard, with a salt per hash.
#[derive(Clone, Copy, Debug, PartialEq, Eq, Structural)]
pub struct Argon2id;

impl Argon2id {
    /// The PHC string of `plaintext` hashed with the B64-encoded `salt`.
    pub fn generate_hash(&self, plaintext: &[u8], salt: &str) -> (r: Result<String, Error>)
        ensures
            r matches Ok(h) ==> h@ == argon2_phc(plaintext@, salt@) && argon2_verifies(
                plaintext@,
                h@,
            ) && phc_parses(h@),
            plaintext@.len() <= MAX_PASSWORD_LEN && accepted_salt(salt@) ==> r is Ok,
            r matches Err(e) ==> e.kind == ErrorKind::Crypto,
    {
        match argon2_hash(plaintext, salt) {
            Some(h) => Ok(h),
            None => Err(Error::new(ErrorKind::Crypto, "password hashing failed")),
        }
    }

    /// The PHC string of `plaintext` hashed with a fresh random salt.
    pub fn generate_hash_ns(&self, plaintext: &[u8]) -> (r: Result<String, Error>)
        ensures
            r matches Ok(h) ==> (exists|salt: Seq<char>|
                h@ == argon2_phc(plaintext@, salt) && accepted_salt(salt)) && argon2_verifies(
                plaintext@,
                h@,
            ) && phc_parses(h@),
            plaintext@.len() <= MAX_PASSWORD_LEN ==> r is Ok,
            r matches Err(e) ==> e.kind == ErrorKind::Crypto,
    {
        let salt = random_salt();
        proof {
            let b = choose|b: Seq<u8>| b.len() == 16 && salt@ == #[trigger] b64_unpadded(b);
            assert(accepted_salt(salt@));
        }
        self.generate_hash(plaintext, salt.as_str())
    }

    /// Whether `plaintext` matches the PHC string `hash`; a mismatch is `Ok(false)`, and only
    /// a hash that does not parse is an error.
    pub fn verify_hash(&self, plaintext: &[u8], hash: &str) -> (r: Result<bool, Error>)
        ensures
            phc_parses(hash@) ==> r == Ok::<bool, Error>(argon2_verifies(plaintext@, hash@)),
            !phc_parses(hash@) ==> (r matches Err(e) && e.kind == ErrorKind::Malformed),
    {
        match argon2_verify(plaintext, hash) {
            Some(b) => Ok(b),
            None => Err(Error::new(ErrorKind::Malformed, "password hash does not parse")),
        }
    }
}

/// Length of a derived key when none is asked for.
pub const DERIVED_KEY_SIZE: usize = 32;

/// The key-derivation provider: scrypt with fixed cost parameters, deterministic for the
/// same input, salt and length.
#[derive(Clone, Copy, Debug, PartialEq, Eq, Structural)]
pub struct Scrypt {
    pub log_n: u8,
    pub r: u32,
    pub p: u32,
}

impl Scrypt {
    /// The cost of scrypt's `Params::recommended()`: `log_n` 17, `r` 8, `p` 1.
    pub fn recommended() -> (k: Scrypt)
        ensures
            k.log_n == 17 && k.r == 8 && k.p == 1,
    {
        Scrypt { log_n: 17, r: 8, p: 1 }
    }

    pub fn new(log_n: u8, r: u32, p: u32) -> (k: Scrypt)
        ensures
            k.log_n == log_n && k.r == r && k.p == p,
    {
        Scrypt { log_n, r, p }
    }

    /// The cost parameters are among those that scrypt is known to accept.
    pub open spec fn usual_cost(&self) -> bool {
        self.log_n <= 20 && self.log_n < 16 * self.r && self.r <= 8 && self.p == 1
    }

    /// Derives a key of `output_length` bytes from `input` and `salt`.
    pub fn derive(&self, input: &[u8], salt: &[u8], output_length: usize) -> (r: Result<
        Vec<u8>,
        Error,
    >)
        ensures
            r matches Ok(k) ==> k@ == scrypt_key(
                input@,
                salt@,
                self.log_n,
                self.r,
                self.p,
                output_length as nat,
            ) && k@.len() == output_length,
            output_length == 0 ==> r is Err,
            self.usual_cost() && output_length > 0 && output_length / 32 <= 0xffff_ffff ==> r is Ok,
            r matches Err(e) ==> e.kind == ErrorKind::Crypto,
    {
        match scrypt_derive(input, salt, self.log_n, self.r, self.p, output_length) {
            Some(k) => Ok(k),
            None => Err(Error::new(ErrorKind::Crypto, "key derivation refused its parameters")),
        }
    }

    /// Derives a 32-byte key from `input` and `salt`.
    pub fn derive_key(&self, input: &[u8], salt: &[u8]) -> (r: Result<Vec<u8>, Error>)
        ensures
            r matches Ok(k) ==> k@ == scrypt_key(
                input@,
                salt@,
                self.log_n,
                self.r,
                self.p,
                DERIVED_KEY_SIZE as nat,
            ) && k@.len() == DERIVED_KEY_SIZE,
            self.usual_cost() ==> r is Ok,
    {
        self.derive(input, salt, DERIVED_KEY_SIZE)
    }
}

} // verus!
