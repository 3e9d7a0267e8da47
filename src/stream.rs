use crate::cipher::{opened, sealed, KEY_SIZE, MAX_PLAINTEXT, TAG_SIZE};
use crate::codec::{be32, copy_range, push_all};
use crate::error::{Error, ErrorKind};
use chacha20poly1305::aead::generic_array::GenericArray;
use chacha20poly1305::aead::stream::{NewStream, StreamBE32, StreamPrimitive};
use chacha20poly1305::{Key, KeyInit, XChaCha20Poly1305};
use vstd::prelude::*;

verus! {

/// Plaintext bytes per chunk: 10 KiB.
pub const CHUNK_SIZE: usize = 10240;

/// Ciphertext bytes per full chunk: the chunk and its tag.
pub const SEALED_CHUNK_SIZE: usize = 10256;

/// Length of the base nonce of a stream; the remaining five bytes of each chunk's nonce
/// hold its position and the last-chunk flag.
pub const STREAM_NONCE_SIZE: usize = 19;

/// Chunk positions are 32-bit counters that stop short of this value.
pub const MAX_CHUNKS: u32 = 0xffff_ffff;

/// The nonce of the chunk at `position`: the base nonce, the position in four big-endian
/// bytes, and a flag byte that marks the last chunk.
pub open spec fn chunk_nonce(prefix: Seq<u8>, position: nat, last: bool) -> Seq<u8> {
    prefix + be32(position as u32) + seq![if last { 1u8 } else { 0u8 }]
}

/// The ciphertext of the stream `p` whose first chunk stands at `position`: full chunks
/// each sealed on their own, then the final, shorter (possibly empty) chunk sealed as last.
pub open spec fn stream_sealed(key: Seq<u8>, prefix: Seq<u8>, p: Seq<u8>, position: nat) -> Seq<
    u8,
>
    decreases p.len(),
{
    if p.len() < CHUNK_SIZE {
        sealed(key, chunk_nonce(prefix, position, true), p)
    } else {
        sealed(key, chunk_nonce(prefix, position, false), p.take(CHUNK_SIZE as int))
            + stream_sealed(key, prefix, p.skip(CHUNK_SIZE as int), position + 1)
    }
}

/// Each chunk of `p` opens back to itself and is sealed with a tag of its own.
pub open spec fn chunks_sound(key: Seq<u8>, prefix: Seq<u8>, p: Seq<u8>, position: nat) -> bool
    decreases p.len(),
{
    if p.len() < CHUNK_SIZE {
        let c = sealed(key, chunk_nonce(prefix, position, true), p);
        opened(key, chunk_nonce(prefix, position, true), c) == Some(p) && c.len() == p.len()
            + TAG_SIZE
    } else {
        let q = p.take(CHUNK_SIZE as int);
        let c = sealed(key, chunk_nonce(prefix, position, false), q);
        &&& opened(key, chunk_nonce(prefix, position, false), c) == Some(q)
        &&& c.len() == SEALED_CHUNK_SIZE
        &&& chunks_sound(key, prefix, p.skip(CHUNK_SIZE as int), position + 1)
    }
}

/// What decrypting the ciphertext stream `c` from `position` on yields: full sealed chunks
/// are opened as such, and what remains, shorter than a full one, as the last chunk.
pub open spec fn stream_opened(key: Seq<u8>, prefix: Seq<u8>, c: Seq<u8>, position: nat) -> Option<
    Seq<u8>,
>
    decreases c.len(),
{
    if c.len() < SEALED_CHUNK_SIZE {
        opened(key, chunk_nonce(prefix, position, true), c)
    } else {
        match opened(key, chunk_nonce(prefix, position, false), c.take(SEALED_CHUNK_SIZE as int)) {
            None => None,
            Some(p) => match stream_opened(
                key,
                prefix,
                c.skip(SEALED_CHUNK_SIZE as int),
                position + 1,
            ) {
                None => None,
                Some(q) => Some(p + q),
            },
        }
    }
}

/// A stream whose chunks were sealed soundly decrypts back to the plaintext.
pub proof fn lemma_stream_round_trip(key: Seq<u8>, prefix: Seq<u8>, p: Seq<u8>, position: nat)
    requires
        chunks_sound(key, prefix, p, position),
    ensures
        stream_opened(key, prefix, stream_sealed(key, prefix, p, position), position) == Some(p),
    decreases p.len(),
{
    if p.len() >= CHUNK_SIZE {
        let q = p.take(CHUNK_SIZE as int);
        let rest = p.skip(CHUNK_SIZE as int);
        let c1 = sealed(key, chunk_nonce(prefix, position, false), q);
        let c2 = stream_sealed(key, prefix, rest, position + 1);
        let c = c1 + c2;
        lemma_stream_round_trip(key, prefix, rest, position + 1);
        assert(c.take(SEALED_CHUNK_SIZE as int) =~= c1);
        assert(c.skip(SEALED_CHUNK_SIZE as int) =~= c2);
        assert(q + rest =~= p);
    }
}

/// Relies on aead's `StreamBE32` over XChaCha20-Poly1305 (`NewStream::from_aead`,
/// `StreamPrimitive::encrypt`): the chunk is sealed under the nonce `aead_nonce` builds,
/// the base nonce, the position in four big-endian bytes and the last-chunk flag byte.
/// The cipher refuses only from `MAX_PLAINTEXT` bytes on; the key and the base nonce must
/// have 32 and 19 bytes, or the conversions panic.
#[verifier::external_body]
fn stream_seal(key: &[u8], prefix: &[u8], position: u32, last: bool, chunk: &[u8]) -> (r:
    Option<Vec<u8>>)
    requires
        key@.len() == KEY_SIZE,
        prefix@.len() == STREAM_NONCE_SIZE,
    ensures
        chunk@.len() < MAX_PLAINTEXT ==> r is Some,
        r matches Some(c) ==> c@ == sealed(key@, chunk_nonce(prefix@, position as nat, last), chunk@)
            && c@.len() == chunk@.len() + TAG_SIZE && opened(
            key@,
            chunk_nonce(prefix@, position as nat, last),
            c@,
        ) == Some(chunk@),
{
    let cipher = XChaCha20Poly1305::new(Key::from_slice(key));
    let stream = StreamBE32::from_aead(cipher, GenericArray::from_slice(prefix));
    stream.encrypt(position, last, chunk).ok()
}

/// Relies on aead's `StreamBE32` over XChaCha20-Poly1305 (`NewStream::from_aead`,
/// `StreamPrimitive::decrypt`): the chunk is opened under the same nonce as it is sealed;
/// it succeeds exactly when the tag authenticates it, which then is the plaintext followed
/// by its 16-byte tag.
#[verifier::external_body]
fn stream_open(key: &[u8], prefix: &[u8], position: u32, last: bool, chunk: &[u8]) -> (r:
    Option<Vec<u8>>)
    requires
        key@.len() == KEY_SIZE,
        prefix@.len() == STREAM_NONCE_SIZE,
    ensures
        r matches Some(p) ==> opened(key@, chunk_nonce(prefix@, position as nat, last), chunk@)
            == Some(p@) && chunk@.len() == p@.len() + TAG_SIZE,
        r is None ==> opened(key@, chunk_nonce(prefix@, position as nat, last), chunk@) is None,
{
    let cipher = XChaCha20Poly1305::new(Key::from_slice(key));
    let stream = StreamBE32::from_aead(cipher, GenericArray::from_slice(prefix));
    stream.decrypt(position, last, chunk).ok()
}

/// Seals one chunk of a stream at `position`; `last` marks the final chunk.
pub fn seal_chunk(key: &[u8], prefix: &[u8], position: u32, last: bool, chunk: &[u8]) -> (r:
    Vec<u8>)
    requires
        key@.len() == KEY_SIZE,
        prefix@.len() == STREAM_NONCE_SIZE,
        chunk@.len() <= CHUNK_SIZE,
    ensures
        r@ == sealed(key@, chunk_nonce(prefix@, position as nat, last), chunk@),
        opened(key@, chunk_nonce(prefix@, position as nat, last), r@) == Some(chunk@),
        r@.len() == chunk@.len() + TAG_SIZE,
{
    match stream_seal(key, prefix, position, last, chunk) {
        Some(c) => c,
        None => {
            // a chunk is far below the cipher's limit
            assert(false);
            Vec::new()
        },
    }
}

/// Opens one sealed chunk of a stream at `position`; `last` marks the final chunk. A
/// chunk shorter than the tag never opens.
pub fn open_chunk(key: &[u8], prefix: &[u8], position: u32, last: bool, chunk: &[u8]) -> (r:
    Result<Vec<u8>, Error>)
    requires
        key@.len() == KEY_SIZE,
        prefix@.len() == STREAM_NONCE_SIZE,
    ensures
        match opened(key@, chunk_nonce(prefix@, position as nat, last), chunk@) {
            Some(p) => r matches Ok(q) && q@ == p,
            None => r matches Err(e) && e.kind == ErrorKind::Integrity,
        },
        r matches Ok(q) ==> chunk@.len() == q@.len() + TAG_SIZE,
        chunk@.len() < TAG_SIZE ==> r is Err,
{
    match stream_open(key, prefix, position, last, chunk) {
        Some(p) => Ok(p),
        None => Err(Error::new(ErrorKind::Integrity, "chunk failed authentication")),
    }
}

/// Encrypts `plaintext` as a stream of 10 KiB chunks; a stream with more chunks than the
/// counter can number is refused.
pub fn encrypt_stream(plaintext: &[u8], key: &[u8], prefix: &[u8]) -> (r: Result<Vec<u8>, Error>)
    requires
        key@.len() == KEY_SIZE,
        prefix@.len() == STREAM_NONCE_SIZE,
    ensures
        r is Ok <==> (plaintext@.len() as int) / (CHUNK_SIZE as int) < MAX_CHUNKS,
        r matches Ok(c) ==> c@ == stream_sealed(key@, prefix@, plaintext@, 0) && chunks_sound(
            key@,
            prefix@,
            plaintext@,
            0,
        ),
        r matches Err(e) ==> e.kind == ErrorKind::Crypto,
{
    if plaintext.len() / CHUNK_SIZE >= MAX_CHUNKS as usize {
        return Err(Error::new(ErrorKind::Crypto, "stream has too many chunks"));
    }
    let ghost p = plaintext@;
    let mut out: Vec<u8> = Vec::new();
    let mut pos: usize = 0;
    let mut position: u32 = 0;
    assert(p.skip(0) =~= p);
    while plaintext.len() - pos >= CHUNK_SIZE
        invariant
            pos <= p.len(),
            p == plaintext@,
            pos == position as int * CHUNK_SIZE,
            (p.len() as int) / (CHUNK_SIZE as int) < MAX_CHUNKS,
            key@.len() == KEY_SIZE,
            prefix@.len() == STREAM_NONCE_SIZE,
            out@ + stream_sealed(key@, prefix@, p.skip(pos as int), position as nat)
                == stream_sealed(key@, prefix@, p, 0),
            chunks_sound(key@, prefix@, p.skip(pos as int), position as nat) ==> chunks_sound(
                key@,
                prefix@,
                p,
                0,
            ),
        decreases p.len() - pos,
    {
        let chunk = copy_range(plaintext, pos, pos + CHUNK_SIZE);
        assert(position < MAX_CHUNKS) by {
            assert(pos + CHUNK_SIZE <= p.len());
            assert((position as int + 1) * CHUNK_SIZE <= p.len()) by (nonlinear_arith)
                requires
                    pos == position as int * CHUNK_SIZE,
                    pos + CHUNK_SIZE <= p.len(),
            ;
            assert((position as int + 1) <= (p.len() as int) / (CHUNK_SIZE as int)) by (nonlinear_arith)
                requires
                    (position as int + 1) * CHUNK_SIZE <= p.len(),
            ;
        }
        let sealed_chunk = seal_chunk(key, prefix, position, false, chunk.as_slice());
        let ghost s = p.skip(pos as int);
        assert(s.take(CHUNK_SIZE as int) =~= chunk@);
        assert(s.skip(CHUNK_SIZE as int) =~= p.skip(pos + CHUNK_SIZE));
        push_all(&mut out, sealed_chunk.as_slice());
        pos = pos + CHUNK_SIZE;
        position = position + 1;
        assert(pos == position as int * CHUNK_SIZE) by (nonlinear_arith)
            requires
                pos == (position - 1) as int * CHUNK_SIZE + CHUNK_SIZE,
        ;
    }
    let last = copy_range(plaintext, pos, plaintext.len());
    assert(p.skip(pos as int) =~= last@);
    let sealed_last = seal_chunk(key, prefix, position, true, last.as_slice());
    push_all(&mut out, sealed_last.as_slice());
    Ok(out)
}

/// Decrypts a chunked ciphertext stream, failing closed: any chunk that does not
/// authenticate at its position, including a last chunk that was not sealed as last,
/// fails the whole stream and no plaintext is returned. A stream cut at a chunk boundary
/// ends in an empty last chunk, shorter than a tag, and always fails.
pub fn decrypt_stream(ciphertext: &[u8], key: &[u8], prefix: &[u8]) -> (r: Result<Vec<u8>, Error>)
    requires
        key@.len() == KEY_SIZE,
        prefix@.len() == STREAM_NONCE_SIZE,
    ensures
        (ciphertext@.len() as int) / (SEALED_CHUNK_SIZE as int) >= MAX_CHUNKS ==> r is Err,
        (ciphertext@.len() as int) / (SEALED_CHUNK_SIZE as int) < MAX_CHUNKS ==> match stream_opened(
            key@,
            prefix@,
            ciphertext@,
            0,
        ) {
            Some(p) => r matches Ok(q) && q@ == p,
            None => r is Err,
        },
        (ciphertext@.len() as int) % (SEALED_CHUNK_SIZE as int) == 0 ==> r is Err,
{
    if ciphertext.len() / SEALED_CHUNK_SIZE >= MAX_CHUNKS as usize {
        return Err(Error::new(ErrorKind::Crypto, "stream has too many chunks"));
    }
    let ghost c = ciphertext@;
    let mut out: Vec<u8> = Vec::new();
    let mut pos: usize = 0;
    let mut position: u32 = 0;
    assert(c.skip(0) =~= c);
    while ciphertext.len() - pos >= SEALED_CHUNK_SIZE
        invariant
            pos <= c.len(),
            c == ciphertext@,
            pos == position as int * SEALED_CHUNK_SIZE,
            (c.len() as int) / (SEALED_CHUNK_SIZE as int) < MAX_CHUNKS,
            key@.len() == KEY_SIZE,
            prefix@.len() == STREAM_NONCE_SIZE,
            stream_opened(key@, prefix@, c, 0) == match stream_opened(
                key@,
                prefix@,
                c.skip(pos as int),
                position as nat,
            ) {
                Some(q) => Some(out@ + q),
                None => None,
            },
        decreases c.len() - pos,
    {
        let piece = copy_range(ciphertext, pos, pos + SEALED_CHUNK_SIZE);
        assert(position < MAX_CHUNKS) by {
            assert((position as int + 1) * SEALED_CHUNK_SIZE <= c.len()) by (nonlinear_arith)
                requires
                    pos == position as int * SEALED_CHUNK_SIZE,
                    pos + SEALED_CHUNK_SIZE <= c.len(),
            ;
            assert((position as int + 1) <= (c.len() as int) / (SEALED_CHUNK_SIZE as int))
                by (nonlinear_arith)
                requires
                    (position as int + 1) * SEALED_CHUNK_SIZE <= c.len(),
            ;
        }
        let ghost s = c.skip(pos as int);
        assert(s.take(SEALED_CHUNK_SIZE as int) =~= piece@);
        assert(s.skip(SEALED_CHUNK_SIZE as int) =~= c.skip(pos + SEALED_CHUNK_SIZE));
        let plain = open_chunk(key, prefix, position, false, piece.as_slice())?;
        let ghost before = out@;
        push_all(&mut out, plain.as_slice());
        proof {
            let rest = stream_opened(
                key@,
                prefix@,
                c.skip(pos + SEALED_CHUNK_SIZE),
                position as nat + 1,
            );
            if let Some(q) = rest {
                assert(before + (plain@ + q) =~= out@ + q);
            }
        }
        pos = pos + SEALED_CHUNK_SIZE;
        position = position + 1;
        assert(pos == position as int * SEALED_CHUNK_SIZE) by (nonlinear_arith)
            requires
                pos == (position - 1) as int * SEALED_CHUNK_SIZE + SEALED_CHUNK_SIZE,
        ;
    }
    let last = copy_range(ciphertext, pos, ciphertext.len());
    assert(c.skip(pos as int) =~= last@);
    assert((c.len() as int) % (SEALED_CHUNK_SIZE as int) == 0 ==> last@.len() == 0) by (nonlinear_arith)
        requires
            pos == position as int * SEALED_CHUNK_SIZE,
            c.len() - pos < SEALED_CHUNK_SIZE,
            pos <= c.len(),
            last@.len() == c.len() - pos,
    ;
    let plain = open_chunk(key, prefix, position, true, last.as_slice())?;
    push_all(&mut out, plain.as_slice());
    Ok(out)
}

} // verus!
