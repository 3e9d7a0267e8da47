use pandorica::codec::decode_hex;
use pandorica::config::Config;
use pandorica::error::{Error, ErrorKind};
use pandorica::hashing::{Argon2id, Scrypt};
use pandorica::registry::{CloudProvider, CryptoProvider};
use pandorica::stream::{decrypt_stream, encrypt_stream, open_chunk, CHUNK_SIZE, SEALED_CHUNK_SIZE};
use chacha20poly1305::aead::stream::EncryptorBE32;
use chacha20poly1305::{KeyInit, XChaCha20Poly1305};
use pandorica::validators::{password, username_format};
use pandorica::vault::{request_params, GcpKeyring};

fn bytes(seed: u8, n: usize) -> Vec<u8> {
    (0..n).map(|i| seed.wrapping_add((i as u8).wrapping_mul(31))).collect()
}

fn vars(pairs: &[(&str, &str)]) -> Vec<(String, String)> {
    pairs.iter().map(|(k, v)| (k.to_string(), v.to_string())).collect()
}

fn gcp_vars() -> Vec<(String, String)> {
    vars(&[
        ("GCP_PROJECT_ID", "proj"),
        ("GCP_KEYRING_LOCATION", "europe-west1"),
        ("GCP_KEYRING_NAME", "ring"),
        ("GCP_KEY_NAME", "mk-wrap"),
    ])
}

fn stream_round_trip(len: usize) {
    let key = bytes(1, 32);
    let prefix = bytes(2, 19);
    let plaintext = bytes(3, len);
    let c = encrypt_stream(&plaintext, &key, &prefix).unwrap();
    let chunks = len / CHUNK_SIZE;
    assert_eq!(c.len(), len + 16 * (chunks + 1));
    assert_eq!(decrypt_stream(&c, &key, &prefix).unwrap(), plaintext);
}

#[test]
fn stream_round_trip_empty() {
    stream_round_trip(0);
}

#[test]
fn stream_round_trip_one_byte() {
    stream_round_trip(1);
}

#[test]
fn stream_round_trip_one_chunk() {
    stream_round_trip(10 * 1024);
}

#[test]
fn stream_round_trip_several_chunks_and_partial() {
    stream_round_trip(3 * CHUNK_SIZE + 777);
}

#[test]
fn stream_truncated_by_a_chunk_fails() {
    let key = bytes(1, 32);
    let prefix = bytes(2, 19);
    let plaintext = bytes(3, 3 * CHUNK_SIZE + 777);
    let c = encrypt_stream(&plaintext, &key, &prefix).unwrap();
    let last_start = 3 * SEALED_CHUNK_SIZE;
    // drop the final chunk: the new final chunk was not sealed as last
    assert_eq!(decrypt_stream(&c[..last_start], &key, &prefix).unwrap_err().kind(), ErrorKind::Integrity);
    // drop a middle chunk: positions no longer match
    let mut spliced = c[..SEALED_CHUNK_SIZE].to_vec();
    spliced.extend_from_slice(&c[2 * SEALED_CHUNK_SIZE..]);
    assert_eq!(decrypt_stream(&spliced, &key, &prefix).unwrap_err().kind(), ErrorKind::Integrity);
    // reorder two chunks
    let mut swapped = c[SEALED_CHUNK_SIZE..2 * SEALED_CHUNK_SIZE].to_vec();
    swapped.extend_from_slice(&c[..SEALED_CHUNK_SIZE]);
    swapped.extend_from_slice(&c[2 * SEALED_CHUNK_SIZE..]);
    assert_eq!(decrypt_stream(&swapped, &key, &prefix).unwrap_err().kind(), ErrorKind::Integrity);
}

#[test]
fn stream_with_wrong_key_fails() {
    let plaintext = bytes(3, 100);
    let c = encrypt_stream(&plaintext, &bytes(1, 32), &bytes(2, 19)).unwrap();
    assert!(decrypt_stream(&c, &bytes(9, 32), &bytes(2, 19)).is_err());
    assert!(decrypt_stream(&c, &bytes(1, 32), &bytes(8, 19)).is_err());
}

#[test]
fn password_hash_verifies() {
    let hashing = Argon2id;
    let h = hashing.generate_hash_ns(b"correct horse").unwrap();
    assert!(h.starts_with("$argon2id$"));
    assert_eq!(hashing.verify_hash(b"correct horse", &h).unwrap(), true);
    assert_eq!(hashing.verify_hash(b"correct horsf", &h).unwrap(), false);
    assert_eq!(hashing.verify_hash(b"", &h).unwrap(), false);
}

#[test]
fn password_hashes_are_salted() {
    let hashing = Argon2id;
    let a = hashing.generate_hash_ns(b"p4ss").unwrap();
    let b = hashing.generate_hash_ns(b"p4ss").unwrap();
    assert_ne!(a, b);
    assert!(hashing.verify_hash(b"p4ss", &a).unwrap());
    assert!(hashing.verify_hash(b"p4ss", &b).unwrap());
}

#[test]
fn password_hash_with_given_salt_is_deterministic() {
    let hashing = Argon2id;
    let a = hashing.generate_hash(b"pw", "c2FsdHNhbHRzYWx0").unwrap();
    let b = hashing.generate_hash(b"pw", "c2FsdHNhbHRzYWx0").unwrap();
    assert_eq!(a, b);
    assert!(a.contains("c2FsdHNhbHRzYWx0"));
    assert_eq!(hashing.generate_hash(b"pw", "!").unwrap_err().kind(), ErrorKind::Crypto);
}

#[test]
fn malformed_password_hash_is_an_error() {
    let hashing = Argon2id;
    assert_eq!(hashing.verify_hash(b"pw", "not a hash").unwrap_err().kind(), ErrorKind::Malformed);
}

#[test]
fn key_derivation_is_deterministic() {
    let kdf = Scrypt::new(4, 8, 1);
    let a = kdf.derive(b"input", b"salt", 16).unwrap();
    let b = kdf.derive(b"input", b"salt", 16).unwrap();
    assert_eq!(a, b);
    assert_eq!(a.len(), 16);
    assert_eq!(kdf.derive(b"input", b"salt", 0).unwrap_err().kind(), ErrorKind::Crypto);
    assert_ne!(kdf.derive(b"input", b"pepper", 16).unwrap(), a);
    assert_eq!(kdf.derive_key(b"input", b"salt").unwrap().len(), 32);
    assert_eq!(Scrypt::new(4, 0, 1).derive(b"input", b"salt", 16).unwrap_err().kind(), ErrorKind::Crypto);
    assert_eq!(Scrypt::recommended(), Scrypt::new(17, 8, 1));
}

#[test]
fn registry_selects_known_providers() {
    let p = CryptoProvider::new("chacha20poly1305", "argon2id", "scrypt", "gcp").unwrap();
    assert_eq!(p.cloud(), CloudProvider::Gcp);
    let c = p.encryption().encrypt(b"x", &bytes(1, 32), &bytes(2, 24)).unwrap();
    assert_eq!(c.len(), 17);
}

#[test]
fn registry_rejects_unknown_selectors() {
    for (e, h, k, v) in [
        ("aes", "argon2id", "scrypt", "gcp"),
        ("chacha20poly1305", "bcrypt", "scrypt", "gcp"),
        ("chacha20poly1305", "argon2id", "pbkdf2", "gcp"),
        ("chacha20poly1305", "argon2id", "scrypt", "aws"),
    ] {
        let err = CryptoProvider::new(e, h, k, v).unwrap_err();
        assert_eq!(err.kind(), ErrorKind::Configuration);
    }
}

#[test]
fn config_defaults() {
    let c = Config::default(&gcp_vars()).unwrap();
    assert_eq!(c.rust_log(), "pandorica=debug");
    assert_eq!(c.listen_addr(), "127.0.0.1:5000");
    assert_eq!(c.db_addr(), "127.0.0.1:8000");
    assert_eq!(c.db_proto(), "ws");
    assert_eq!(c.db_user(), "root");
    assert_eq!(c.db_pass(), "root");
    assert_eq!(c.encryption_provider(), "chacha20poly1305");
    assert_eq!(c.hashing_provider(), "argon2id");
    assert_eq!(c.keyderivation_provider(), "scrypt");
    assert_eq!(c.envelope_provider(), "gcp");
    assert_eq!(c.filesystem_provider(), "memory");
    assert_eq!(c.gcp_project_id(), "proj");
    assert_eq!(c.gcp_keyring_location(), "europe-west1");
    assert_eq!(c.gcp_keyring_name(), "ring");
    assert_eq!(c.gcp_key_name(), "mk-wrap");
}

#[test]
fn config_reads_overrides() {
    let mut v = gcp_vars();
    v.push(("LISTEN_ADDR".to_string(), "0.0.0.0:9000".to_string()));
    v.push(("LISTEN_ADDR".to_string(), "ignored".to_string()));
    let c = Config::default(&v).unwrap();
    assert_eq!(c.listen_addr(), "0.0.0.0:9000");
}

#[test]
fn config_requires_gcp_settings() {
    let v = vars(&[("GCP_PROJECT_ID", "proj")]);
    assert_eq!(Config::default(&v).err().unwrap().kind(), ErrorKind::Configuration);
}

#[test]
fn config_without_gcp_leaves_vault_settings_empty() {
    let v = vars(&[("ENVELOPE_PROVIDER", "other"), ("GCP_PROJECT_ID", "proj")]);
    let c = Config::default(&v).unwrap();
    assert_eq!(c.envelope_provider(), "other");
    assert_eq!(c.gcp_project_id(), "");
    assert_eq!(c.gcp_key_name(), "");
}

#[test]
fn env_helpers() {
    let v = vars(&[("A", "1")]);
    assert_eq!(Config::env_or(&v, "A", "d"), "1");
    assert_eq!(Config::env_or(&v, "B", "d"), "d");
    assert_eq!(Config::env_expect_if(&v, "B", false).unwrap(), "");
    assert_eq!(Config::env_expect_if(&v, "A", true).unwrap(), "1");
    assert!(Config::env_expect_if(&v, "B", true).is_err());
}

#[test]
fn password_rules() {
    assert!(password("Str0ng!pass").is_valid());
    assert_eq!(
        password("").0,
        vec![
            "invalid_password__length",
            "invalid_password__uppercase",
            "invalid_password__lowercase",
            "invalid_password__digit",
            "invalid_password__special",
        ]
    );
    assert_eq!(password("abcdefgh").0, vec!["invalid_password__uppercase", "invalid_password__digit", "invalid_password__special"]);
    assert_eq!(password("Ab1!").0, vec!["invalid_password__length"]);
    assert_eq!(password("ABCDEFG1\\").0, vec!["invalid_password__lowercase"]);
}

#[test]
fn username_rules() {
    assert!(username_format("alice_01.x").is_valid());
    assert_eq!(username_format("ab").0, vec!["invalid_user__username"]);
    assert_eq!(username_format("has space").0, vec!["invalid_user__username"]);
    assert!(username_format(&"a".repeat(32)).is_valid());
    assert!(!username_format(&"a".repeat(33)).is_valid());
}

#[test]
fn gcp_key_names() {
    let c = Config::default(&gcp_vars()).unwrap();
    let names = GcpKeyring::new(&c);
    assert_eq!(names.location, "projects/proj/locations/europe-west1");
    assert_eq!(names.keyring, "projects/proj/locations/europe-west1/keyRings/ring/cryptoKeys");
    assert_eq!(
        names.key_name("mk-wrap"),
        "projects/proj/locations/europe-west1/keyRings/ring/cryptoKeys/mk-wrap"
    );
    assert_eq!(request_params("x/y"), "name=x/y");
}

#[test]
fn error_constructors() {
    let e = Error::new_from("boom");
    assert_eq!(e.kind(), ErrorKind::Other);
    assert_eq!(e.to_string(), "boom");
    assert_eq!(Error::empty().to_string(), "Undefined error");
    let e = Error::new(ErrorKind::Vault, "unreachable");
    assert_eq!(e.kind(), ErrorKind::Vault);
}

#[test]
fn hex_decoding() {
    assert_eq!(decode_hex(b"00ff1A").unwrap(), vec![0x00, 0xff, 0x1a]);
    assert_eq!(decode_hex(b"").unwrap(), Vec::<u8>::new());
    assert!(decode_hex(b"abc").is_none());
    assert!(decode_hex(b"zz").is_none());
}

#[test]
fn stream_cut_by_whole_chunks_fails() {
    let key = [7u8; 32];
    let prefix = [0u8; 19];
    let plaintext = vec![0xABu8; 25000];
    let c = encrypt_stream(&plaintext, &key, &prefix).unwrap();
    assert_eq!(c.len(), 25048);
    assert!(decrypt_stream(&c[..14792], &key, &prefix).is_err());
    assert!(decrypt_stream(&c[..20512], &key, &prefix).is_err());
    assert!(decrypt_stream(&[], &key, &prefix).is_err());
    assert_eq!(open_chunk(&key, &prefix, 0, true, &[1, 2, 3]).unwrap_err().kind(), ErrorKind::Integrity);
}

#[test]
fn stream_matches_aead_stream_encryptor() {
    let key = bytes(1, 32);
    let prefix = bytes(2, 19);
    let plaintext = bytes(3, 2 * CHUNK_SIZE + 5);
    let cipher = XChaCha20Poly1305::new(chacha20poly1305::Key::from_slice(&key));
    let mut encryptor = EncryptorBE32::from_aead(cipher, prefix.as_slice().into());
    let mut expected = encryptor.encrypt_next(&plaintext[..CHUNK_SIZE]).unwrap();
    expected.extend(encryptor.encrypt_next(&plaintext[CHUNK_SIZE..2 * CHUNK_SIZE]).unwrap());
    expected.extend(encryptor.encrypt_last(&plaintext[2 * CHUNK_SIZE..]).unwrap());
    assert_eq!(encrypt_stream(&plaintext, &key, &prefix).unwrap(), expected);
}

#[test]
fn password_hash_of_a_mismatch_is_false_not_an_error() {
    let hashing = Argon2id;
    let h2 = hashing.generate_hash_ns(b"other password").unwrap();
    assert_eq!(hashing.verify_hash(b"password", &h2).unwrap(), false);
    assert_eq!(hashing.verify_hash(b"", &h2).unwrap(), false);
}
