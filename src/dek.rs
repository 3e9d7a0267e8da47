use crate::codec::{
    be64, be64_value, framed, lemma_be64_round_trip, lemma_read_framed, push_be64, push_framed,
    read_be64, read_framed, read_framed_at,
};
use crate::error::{Error, ErrorKind};
use vstd::prelude::*;

verus! {

/// The persisted part of a data-encryption key, as the encoding carries it.
pub struct DekRecord {
    pub wrapped_key: Seq<u8>,
    pub nonce: Seq<u8>,
    pub wrapping_nonce: Seq<u8>,
    pub master_key_id: u64,
}

/// The encoding of a DEK: the wrapped key, the data nonce and the wrapping nonce, each framed
/// by its length, then the master key identity, all big-endian.
pub open spec fn dek_bytes(d: DekRecord) -> Seq<u8> {
    framed(d.wrapped_key) + framed(d.nonce) + framed(d.wrapping_nonce) + be64(d.master_key_id)
}

/// The DEK record that `s` encodes, if it encodes one.
pub open spec fn parse_dek(s: Seq<u8>) -> Option<DekRecord> {
    match read_framed(s) {
        None => None,
        Some((w, r1)) => match read_framed(r1) {
            None => None,
            Some((n, r2)) => match read_framed(r2) {
                None => None,
                Some((wn, r3)) => if r3.len() == 8 {
                    Some(
                        DekRecord {
                            wrapped_key: w,
                            nonce: n,
                            wrapping_nonce: wn,
                            master_key_id: be64_value(r3) as u64,
                        },
                    )
                } else {
                    None
                },
            },
        },
    }
}

/// Every field fits the four-byte length frame.
pub open spec fn encodable(d: DekRecord) -> bool {
    d.wrapped_key.len() <= u32::MAX && d.nonce.len() <= u32::MAX && d.wrapping_nonce.len()
        <= u32::MAX
}

/// Decoding an encoded DEK gives back the same record.
pub proof fn lemma_dek_round_trip(d: DekRecord)
    requires
        encodable(d),
    ensures
        parse_dek(dek_bytes(d)) == Some(d),
{
    let fw = framed(d.wrapped_key);
    let fnn = framed(d.nonce);
    let fwn = framed(d.wrapping_nonce);
    let id = be64(d.master_key_id);
    let r3 = id;
    let r2 = fwn + id;
    let r1 = fnn + r2;
    assert(dek_bytes(d) =~= fw + r1);
    lemma_read_framed(d.wrapped_key, r1);
    lemma_read_framed(d.nonce, r2);
    lemma_read_framed(d.wrapping_nonce, r3);
    lemma_be64_round_trip(d.master_key_id);
}

/// A data-encryption key: the plaintext key material (empty until unwrapped), the nonce for
/// the caller's payload, and the key wrapped under the referenced master key.
#[derive(Debug)]
pub struct Dek {
    pub key: Vec<u8>,
    pub nonce: Vec<u8>,
    pub master_key_id: u64,
    pub wrapping_nonce: Vec<u8>,
    pub wrapped_key: Vec<u8>,
}

impl Dek {
    /// The persisted fields, without the plaintext key.
    pub open spec fn record(&self) -> DekRecord {
        DekRecord {
            wrapped_key: self.wrapped_key@,
            nonce: self.nonce@,
            wrapping_nonce: self.wrapping_nonce@,
            master_key_id: self.master_key_id,
        }
    }

    pub fn new(
        key: Vec<u8>,
        nonce: Vec<u8>,
        master_key_id: u64,
        wrapping_nonce: Vec<u8>,
        wrapped_key: Vec<u8>,
    ) -> (r: Dek)
        ensures
            r.key@ == key@,
            r.nonce@ == nonce@,
            r.master_key_id == master_key_id,
            r.wrapping_nonce@ == wrapping_nonce@,
            r.wrapped_key@ == wrapped_key@,
    {
        Dek { key, nonce, master_key_id, wrapping_nonce, wrapped_key }
    }

    /// The binary encoding of the DEK; the plaintext key is never part of it.
    pub fn to_bytes(&self) -> (r: Vec<u8>)
        requires
            encodable(self.record()),
        ensures
            r@ == dek_bytes(self.record()),
    {
        let mut out: Vec<u8> = Vec::new();
        push_framed(&mut out, self.wrapped_key.as_slice());
        push_framed(&mut out, self.nonce.as_slice());
        push_framed(&mut out, self.wrapping_nonce.as_slice());
        push_be64(&mut out, self.master_key_id);
        assert(out@ =~= dek_bytes(self.record()));
        out
    }

    /// Decodes a DEK from its binary encoding; its plaintext key is left empty.
    pub fn from_bytes(encoded: &[u8]) -> (r: Result<Dek, Error>)
        ensures
            match parse_dek(encoded@) {
                Some(d) => r matches Ok(k) && k.record() == d && k.key@.len() == 0,
                None => r matches Err(e) && e.kind == ErrorKind::Malformed,
            },
    {
        let ghost s = encoded@;
        assert(s.subrange(0, s.len() as int) =~= s);
        let (wrapped_key, after_wrapped) = match read_framed_at(encoded, 0) {
            Some(x) => x,
            None => {
                return Err(Error::new(ErrorKind::Malformed, "malformed data encryption key"));
            },
        };
        let (nonce, after_nonce) = match read_framed_at(encoded, after_wrapped) {
            Some(x) => x,
            None => {
                return Err(Error::new(ErrorKind::Malformed, "malformed data encryption key"));
            },
        };
        let (wrapping_nonce, after_nonces) = match read_framed_at(encoded, after_nonce) {
            Some(x) => x,
            None => {
                return Err(Error::new(ErrorKind::Malformed, "malformed data encryption key"));
            },
        };
        if encoded.len() - after_nonces != 8 {
            return Err(Error::new(ErrorKind::Malformed, "malformed data encryption key"));
        }
        let master_key_id = read_be64(encoded, after_nonces);
        assert(s.subrange(after_nonces as int, s.len() as int) =~= s.subrange(after_nonces as int, after_nonces + 8));
        Ok(Dek { key: Vec::new(), nonce, master_key_id, wrapping_nonce, wrapped_key })
    }
}

} // verus!
