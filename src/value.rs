use crate::cipher::{opened, sealed, ChaCha20Poly1305, KEY_SIZE, MAX_PLAINTEXT, NONCE_SIZE};
use crate::dek::{lemma_dek_round_trip, parse_dek, Dek, DekRecord};
use crate::error::{Error, ErrorKind};
use crate::kms::KeyManagementService;
use vstd::prelude::*;

verus! {

/// What an envelope-encrypted value holds: the ciphertext, the encoded wrapped DEK, and the
/// plaintext once decrypted.
pub struct EncryptedValueView {
    pub ciphertext: Seq<u8>,
    pub dek: Seq<u8>,
    pub decoded: Option<Seq<u8>>,
}

/// `v` protects `value` with the DEK `key` and the nonces, wrapped under master key `id`
/// whose material is `material`.
pub open spec fn protects(
    v: EncryptedValueView,
    value: Seq<u8>,
    material: Seq<u8>,
    id: u64,
    key: Seq<u8>,
    nonce: Seq<u8>,
    wrapping_nonce: Seq<u8>,
) -> bool {
    &&& material.len() == KEY_SIZE && key.len() == KEY_SIZE && nonce.len() == NONCE_SIZE
        && wrapping_nonce.len() == NONCE_SIZE
    &&& parse_dek(v.dek) == Some(
        DekRecord {
            wrapped_key: sealed(material, wrapping_nonce, key),
            nonce,
            wrapping_nonce,
            master_key_id: id,
        },
    )
    &&& opened(material, wrapping_nonce, sealed(material, wrapping_nonce, key)) == Some(key)
    &&& v.ciphertext == sealed(key, nonce, value)
    &&& opened(key, nonce, v.ciphertext) == Some(value)
}

/// What decrypting `v` yields, with `material` the master key material that unwraps its
/// DEK (`None` where none is at hand).
pub open spec fn decryption(v: EncryptedValueView, material: Option<Seq<u8>>) -> Option<Seq<u8>> {
    match parse_dek(v.dek) {
        None => None,
        Some(d) => match material {
            None => None,
            Some(m) => if m.len() != KEY_SIZE || d.wrapping_nonce.len() != NONCE_SIZE {
                None
            } else {
                match opened(m, d.wrapping_nonce, d.wrapped_key) {
                    None => None,
                    Some(k) => if k.len() != KEY_SIZE || d.nonce.len() != NONCE_SIZE {
                        None
                    } else {
                        opened(k, d.nonce, v.ciphertext)
                    },
                }
            },
        },
    }
}

/// The master key identity that the DEK of `v` references.
pub open spec fn dek_reference(v: EncryptedValueView) -> Option<u64> {
    match parse_dek(v.dek) {
        Some(d) => Some(d.master_key_id),
        None => None,
    }
}

/// A value protected with some master key decrypts to what was protected, given that
/// master key's material.
pub proof fn lemma_round_trip(
    v: EncryptedValueView,
    value: Seq<u8>,
    material: Seq<u8>,
    id: u64,
    key: Seq<u8>,
    nonce: Seq<u8>,
    wrapping_nonce: Seq<u8>,
)
    requires
        protects(v, value, material, id, key, nonce, wrapping_nonce),
    ensures
        decryption(v, Some(material)) == Some(value),
        dek_reference(v) == Some(id),
{
}

/// A value protected while master key `id` was current still decrypts after a rotation
/// made another key current: the service turns to the historical key's material.
pub proof fn lemma_historical_dek_decrypts(
    kms: KeyManagementService,
    v: EncryptedValueView,
    value: Seq<u8>,
    material: Seq<u8>,
    id: u64,
    key: Seq<u8>,
    nonce: Seq<u8>,
    wrapping_nonce: Seq<u8>,
)
    requires
        protects(v, value, material, id, key, nonce, wrapping_nonce),
        kms.current_record() matches Some(m) && m.id != id,
    ensures
        decryption(v, kms.unwrapping_material(id, Some(material))) == Some(value),
{
    kms.lemma_current_material(id, Some(material));
}

/// An envelope-encrypted value: the ciphertext of a plaintext under its own DEK, stored
/// with that DEK wrapped and encoded, never with its plaintext key.
pub struct EncryptedValue {
    value: Vec<u8>,
    dek: Vec<u8>,
    decoded_value: Option<Vec<u8>>,
}

impl View for EncryptedValue {
    type V = EncryptedValueView;

    closed spec fn view(&self) -> EncryptedValueView {
        EncryptedValueView {
            ciphertext: self.value@,
            dek: self.dek@,
            decoded: match self.decoded_value {
                Some(p) => Some(p@),
                None => None,
            },
        }
    }
}

impl EncryptedValue {
    /// Protects `value` under a fresh DEK from `kms`: `key`, `nonce` and `wrapping_nonce`
    /// are the vault's random bytes for it.
    pub fn new(
        kms: &KeyManagementService,
        value: Vec<u8>,
        key: Vec<u8>,
        nonce: Vec<u8>,
        wrapping_nonce: Vec<u8>,
    ) -> (r: Result<EncryptedValue, Error>)
        requires
            kms.wf(),
        ensures
            r is Ok <==> kms.current_record() is Some && key@.len() == KEY_SIZE && nonce@.len()
                == NONCE_SIZE && wrapping_nonce@.len() == NONCE_SIZE && value@.len()
                < MAX_PLAINTEXT,
            kms.current_record() is None ==> (r matches Err(e) && e.kind
                == ErrorKind::MasterKeyNotFound),
            kms.current_record() is Some && !(key@.len() == KEY_SIZE && nonce@.len() == NONCE_SIZE
                && wrapping_nonce@.len() == NONCE_SIZE) ==> (r matches Err(e) && e.kind
                == ErrorKind::Vault),
            kms.current_record() is Some && key@.len() == KEY_SIZE && nonce@.len() == NONCE_SIZE
                && wrapping_nonce@.len() == NONCE_SIZE && value@.len() >= MAX_PLAINTEXT ==> (
            r matches Err(e) && e.kind == ErrorKind::Crypto),
            r matches Ok(v) ==> kms.current_record() matches Some(m) && protects(
                v@,
                value@,
                kms.current_material(),
                m.id,
                key@,
                nonce@,
                wrapping_nonce@,
            ) && v@.decoded == Some(value@),
    {
        let ghost key_view = key@;
        let dek = kms.generate_dek(key, nonce, wrapping_nonce)?;
        proof {
            kms.lemma_material_length();
        }
        let cipher = ChaCha20Poly1305;
        let ciphertext = cipher.encrypt(value.as_slice(), dek.key.as_slice(), dek.nonce.as_slice())?;
        let encoded = dek.to_bytes();
        proof {
            lemma_dek_round_trip(dek.record());
        }
        Ok(EncryptedValue { value: ciphertext, dek: encoded, decoded_value: Some(value) })
    }

    /// Decrypts the value and keeps the plaintext; `historical` is the material of the
    /// master key that the DEK references, where that is not the current one. Decrypting
    /// again is safe and overwrites the kept plaintext.
    pub fn decrypt(&mut self, kms: &KeyManagementService, historical: Option<&[u8]>) -> (r: Result<
        (),
        Error,
    >)
        requires
            kms.wf(),
        ensures
            final(self)@.ciphertext == old(self)@.ciphertext,
            final(self)@.dek == old(self)@.dek,
            match decryption(
                old(self)@,
                match dek_reference(old(self)@) {
                    Some(id) => kms.unwrapping_material(
                        id,
                        match historical {
                            Some(h) => Some(h@),
                            None => None,
                        },
                    ),
                    None => None,
                },
            ) {
                Some(p) => r is Ok && final(self)@.decoded == Some(p),
                None => r is Err && final(self)@ == old(self)@,
            },
    {
        let mut dek = Dek::from_bytes(self.dek.as_slice())?;
        kms.decrypt_dek(&mut dek, historical)?;
        if dek.key.len() != KEY_SIZE || dek.nonce.len() != NONCE_SIZE {
            return Err(Error::new(ErrorKind::Malformed, "data encryption key of a wrong shape"));
        }
        let cipher = ChaCha20Poly1305;
        let plaintext = cipher.decrypt(self.value.as_slice(), dek.key.as_slice(), dek.nonce.as_slice())?;
        self.decoded_value = Some(plaintext);
        Ok(())
    }

    /// The plaintext, once the value has been created or decrypted.
    pub fn value(&self) -> (r: Option<&Vec<u8>>)
        ensures
            match r {
                Some(p) => self@.decoded == Some(p@),
                None => self@.decoded is None,
            },
    {
        self.decoded_value.as_ref()
    }

    /// The ciphertext.
    pub fn ciphertext(&self) -> (r: &Vec<u8>)
        ensures
            r@ == self@.ciphertext,
    {
        &self.value
    }

    /// The encoded wrapped DEK.
    pub fn dek_bytes(&self) -> (r: &Vec<u8>)
        ensures
            r@ == self@.dek,
    {
        &self.dek
    }

    /// A value as it was stored: its ciphertext and its encoded DEK, not yet decrypted.
    pub fn from_parts(ciphertext: Vec<u8>, dek: Vec<u8>) -> (r: EncryptedValue)
        ensures
            r@.ciphertext == ciphertext@,
            r@.dek == dek@,
            r@.decoded is None,
    {
        EncryptedValue { value: ciphertext, dek, decoded_value: None }
    }
}

} // verus!
