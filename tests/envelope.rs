use pandorica::cipher::ChaCha20Poly1305;
use pandorica::dek::Dek;
use pandorica::error::{Error, ErrorKind};
use pandorica::kms::{decide_rotation, KeyManagementService, MasterKeySource, RotationDecision, MASTER_KEY_LIFETIME};
use pandorica::store::{MasterKey, MasterKeyStore};
use pandorica::value::EncryptedValue;

const NOW: i64 = 1_700_000_000;

fn bytes(seed: u8, n: usize) -> Vec<u8> {
    (0..n).map(|i| seed.wrapping_add((i as u8).wrapping_mul(31))).collect()
}

/// Stands in for the cloud key vault's wrapping: a reversible transformation.
fn vault_wrap(material: &[u8]) -> Vec<u8> {
    material.iter().map(|b| b ^ 0x5a).collect()
}

fn vault_unwrap(wrapped: &[u8]) -> Vec<u8> {
    wrapped.iter().map(|b| b ^ 0x5a).collect()
}

/// One rotation check against the store, performed as a host process would.
fn rotate(kms: &mut KeyManagementService, store: &mut MasterKeyStore, now: i64, seed: u8) -> Result<(), Error> {
    let active = store.read_current_active();
    match decide_rotation(&active, now) {
        RotationDecision::Keep => {
            let active = active.unwrap();
            let material = vault_unwrap(&active.wrapped_key);
            kms.adopt(active, material, now)
        }
        RotationDecision::Replace => {
            let material = bytes(seed, 32);
            let wrapped = vault_wrap(&material);
            kms.replace(store, now, material, wrapped).map(|_| ())
        }
    }
}

fn decrypt_value(value: &mut EncryptedValue, kms: &KeyManagementService, store: &MasterKeyStore) -> Result<(), Error> {
    let dek = Dek::from_bytes(value.dek_bytes())?;
    match kms.master_key_source(&dek) {
        MasterKeySource::Current => value.decrypt(kms, None),
        MasterKeySource::Historical(id) => {
            let record = KeyManagementService::load_master_key(store, id)?;
            let material = vault_unwrap(&record.wrapped_key);
            value.decrypt(kms, Some(&material))
        }
    }
}

fn active_count(store: &MasterKeyStore, max_id: u64) -> usize {
    (1..=max_id).filter(|id| store.read(*id).map(|m| m.is_active).unwrap_or(false)).count()
}

#[test]
fn cipher_round_trip() {
    let cipher = ChaCha20Poly1305;
    let key = bytes(1, 32);
    let nonce = bytes(2, 24);
    let c = cipher.encrypt(b"hello", &key, &nonce).unwrap();
    assert_eq!(c.len(), 5 + 16);
    assert_ne!(&c[..5], b"hello");
    assert_eq!(cipher.decrypt(&c, &key, &nonce).unwrap(), b"hello".to_vec());
}

#[test]
fn cipher_rejects_tampering_and_wrong_key() {
    let cipher = ChaCha20Poly1305;
    let key = bytes(1, 32);
    let nonce = bytes(2, 24);
    let c = cipher.encrypt(b"secret payload", &key, &nonce).unwrap();
    for bit in 0..(c.len() * 8) {
        let mut t = c.clone();
        t[bit / 8] ^= 1 << (bit % 8);
        let e = cipher.decrypt(&t, &key, &nonce).unwrap_err();
        assert_eq!(e.kind(), ErrorKind::Integrity);
    }
    let other = bytes(9, 32);
    assert_eq!(cipher.decrypt(&c, &other, &nonce).unwrap_err().kind(), ErrorKind::Integrity);
    assert_eq!(cipher.decrypt(&[1, 2, 3], &key, &nonce).unwrap_err().kind(), ErrorKind::Integrity);
}

#[test]
fn dek_encoding_round_trip() {
    let dek = Dek::new(bytes(1, 32), bytes(2, 24), 0x0102_0304_0506_0708, bytes(3, 24), bytes(4, 48));
    let encoded = dek.to_bytes();
    assert_eq!(encoded.len(), 4 + 48 + 4 + 24 + 4 + 24 + 8);
    assert_eq!(&encoded[0..4], &[0, 0, 0, 48]);
    assert_eq!(&encoded[encoded.len() - 8..], &[1, 2, 3, 4, 5, 6, 7, 8]);
    let decoded = Dek::from_bytes(&encoded).unwrap();
    assert!(decoded.key.is_empty());
    assert_eq!(decoded.nonce, dek.nonce);
    assert_eq!(decoded.wrapping_nonce, dek.wrapping_nonce);
    assert_eq!(decoded.wrapped_key, dek.wrapped_key);
    assert_eq!(decoded.master_key_id, dek.master_key_id);
}

#[test]
fn dek_decoding_rejects_malformed_bytes() {
    let dek = Dek::new(vec![], bytes(2, 24), 7, bytes(3, 24), bytes(4, 48));
    let encoded = dek.to_bytes();
    assert_eq!(Dek::from_bytes(&encoded[..encoded.len() - 1]).unwrap_err().kind(), ErrorKind::Malformed);
    let mut longer = encoded.clone();
    longer.push(0);
    assert_eq!(Dek::from_bytes(&longer).unwrap_err().kind(), ErrorKind::Malformed);
    assert_eq!(Dek::from_bytes(&[]).unwrap_err().kind(), ErrorKind::Malformed);
    assert_eq!(Dek::from_bytes(&[0xff, 0xff, 0xff, 0xff, 1]).unwrap_err().kind(), ErrorKind::Malformed);
}

#[test]
fn store_operations() {
    let mut store = MasterKeyStore::new();
    assert!(store.read_current_active().is_none());
    let a = store.create(NOW, NOW + 10, true, vec![1]).unwrap();
    assert_eq!(store.create(NOW, NOW + 10, true, vec![2]).unwrap_err().kind(), ErrorKind::Store);
    let b = store.create(NOW, NOW + 10, false, vec![3]).unwrap();
    assert_ne!(a, b);
    assert_eq!(store.read_current_active().unwrap().id, a);
    assert_eq!(store.update_metadata(b, NOW, true).unwrap_err().kind(), ErrorKind::Store);
    store.update_metadata(a, NOW + 5, false).unwrap();
    let ra = store.read(a).unwrap();
    assert_eq!(ra.expires_at, NOW + 5);
    assert!(!ra.is_active);
    assert_eq!(ra.wrapped_key, vec![1]);
    store.update_metadata(b, NOW, true).unwrap();
    assert_eq!(store.read_current_active().unwrap().id, b);
    assert!(store.read(99).is_none());
    assert_eq!(store.update_metadata(99, NOW, false).unwrap_err().kind(), ErrorKind::MasterKeyNotFound);
}

#[test]
fn first_rotation_creates_active_key() {
    let mut kms = KeyManagementService::new();
    let mut store = MasterKeyStore::new();
    assert_eq!(kms.current_id(), None);
    rotate(&mut kms, &mut store, NOW, 1).unwrap();
    let id = kms.current_id().unwrap();
    let record = store.read(id).unwrap();
    assert!(record.is_active);
    assert_eq!(record.created_at, NOW);
    assert_eq!(record.expires_at, NOW + 90 * 24 * 60 * 60);
    assert_eq!(record.wrapped_key, vault_wrap(&bytes(1, 32)));
    assert_eq!(active_count(&store, 10), 1);
}

#[test]
fn rotation_before_expiry_keeps_the_key() {
    let mut kms = KeyManagementService::new();
    let mut store = MasterKeyStore::new();
    rotate(&mut kms, &mut store, NOW, 1).unwrap();
    let first = kms.current_id().unwrap();
    rotate(&mut kms, &mut store, NOW, 2).unwrap();
    assert_eq!(kms.current_id().unwrap(), first);
    assert_eq!(store.read_current_active().unwrap().id, first);
    assert!(store.read(first + 1).is_none());
    assert_eq!(active_count(&store, 10), 1);
}

#[test]
fn rotation_after_expiry_retires_the_old_key() {
    let mut kms = KeyManagementService::new();
    let mut store = MasterKeyStore::new();
    rotate(&mut kms, &mut store, NOW, 1).unwrap();
    let old = kms.current_id().unwrap();
    let later = NOW + MASTER_KEY_LIFETIME;
    rotate(&mut kms, &mut store, later, 2).unwrap();
    let new = kms.current_id().unwrap();
    assert_ne!(new, old);
    let old_record = store.read(old).unwrap();
    assert!(!old_record.is_active);
    assert!(store.read(new).unwrap().is_active);
    assert_eq!(store.read_current_active().unwrap().id, new);
    assert_eq!(active_count(&store, 10), 1);
}

#[test]
fn replace_refuses_short_material() {
    let mut kms = KeyManagementService::new();
    let mut store = MasterKeyStore::new();
    let e = kms.replace(&mut store, NOW, vec![1; 31], vec![2; 40]).unwrap_err();
    assert_eq!(e.kind(), ErrorKind::Vault);
    assert!(store.read_current_active().is_none());
    assert_eq!(kms.current_id(), None);
}

#[test]
fn adopt_refuses_expired_key() {
    let mut kms = KeyManagementService::new();
    let mut store = MasterKeyStore::new();
    rotate(&mut kms, &mut store, NOW, 1).unwrap();
    let active = store.read_current_active().unwrap();
    let mut other = KeyManagementService::new();
    let e = other.adopt(active, bytes(1, 32), NOW + MASTER_KEY_LIFETIME).unwrap_err();
    assert_eq!(e.kind(), ErrorKind::Other);
    assert_eq!(other.current_id(), None);
}

#[test]
fn dek_generation_requires_a_master_key() {
    let kms = KeyManagementService::new();
    let e = kms.generate_dek(bytes(1, 32), bytes(2, 24), bytes(3, 24)).unwrap_err();
    assert_eq!(e.kind(), ErrorKind::MasterKeyNotFound);
}

#[test]
fn dek_generation_checks_random_lengths() {
    let mut kms = KeyManagementService::new();
    let mut store = MasterKeyStore::new();
    rotate(&mut kms, &mut store, NOW, 1).unwrap();
    let e = kms.generate_dek(bytes(1, 31), bytes(2, 24), bytes(3, 24)).unwrap_err();
    assert_eq!(e.kind(), ErrorKind::Vault);
    let e = kms.generate_dek(bytes(1, 32), bytes(2, 24), bytes(3, 23)).unwrap_err();
    assert_eq!(e.kind(), ErrorKind::Vault);
}

#[test]
fn dek_wraps_and_unwraps_under_current_key() {
    let mut kms = KeyManagementService::new();
    let mut store = MasterKeyStore::new();
    rotate(&mut kms, &mut store, NOW, 1).unwrap();
    let dek = kms.generate_dek(bytes(7, 32), bytes(8, 24), bytes(9, 24)).unwrap();
    assert_eq!(dek.master_key_id, kms.current_id().unwrap());
    assert_eq!(dek.wrapped_key.len(), 48);
    assert_ne!(&dek.wrapped_key[..32], &bytes(7, 32)[..]);
    let mut decoded = Dek::from_bytes(&dek.to_bytes()).unwrap();
    kms.decrypt_dek(&mut decoded, None).unwrap();
    assert_eq!(decoded.key, bytes(7, 32));
}

#[test]
fn dek_of_unknown_master_key_is_not_found() {
    let mut kms = KeyManagementService::new();
    let mut store = MasterKeyStore::new();
    rotate(&mut kms, &mut store, NOW, 1).unwrap();
    let mut dek = Dek::new(vec![], bytes(8, 24), 4242, bytes(9, 24), bytes(1, 48));
    assert_eq!(kms.master_key_source(&dek), MasterKeySource::Historical(4242));
    let e = KeyManagementService::load_master_key(&store, 4242).unwrap_err();
    assert_eq!(e.kind(), ErrorKind::MasterKeyNotFound);
    let e = kms.decrypt_dek(&mut dek, None).unwrap_err();
    assert_eq!(e.kind(), ErrorKind::MasterKeyNotFound);
}

#[test]
fn value_round_trip() {
    let mut kms = KeyManagementService::new();
    let mut store = MasterKeyStore::new();
    rotate(&mut kms, &mut store, NOW, 1).unwrap();
    for plaintext in [Vec::new(), b"a".to_vec(), b"user@example.com".to_vec(), bytes(3, 5000)] {
        let created = EncryptedValue::new(&kms, plaintext.clone(), bytes(4, 32), bytes(5, 24), bytes(6, 24)).unwrap();
        assert_eq!(created.value().unwrap(), &plaintext);
        assert_eq!(created.ciphertext().len(), plaintext.len() + 16);
        let mut stored = EncryptedValue::from_parts(created.ciphertext().clone(), created.dek_bytes().clone());
        assert!(stored.value().is_none());
        decrypt_value(&mut stored, &kms, &store).unwrap();
        assert_eq!(stored.value().unwrap(), &plaintext);
        decrypt_value(&mut stored, &kms, &store).unwrap();
        assert_eq!(stored.value().unwrap(), &plaintext);
    }
}

#[test]
fn value_stores_no_plaintext_key() {
    let mut kms = KeyManagementService::new();
    let mut store = MasterKeyStore::new();
    rotate(&mut kms, &mut store, NOW, 1).unwrap();
    let key = bytes(4, 32);
    let created = EncryptedValue::new(&kms, b"payload".to_vec(), key.clone(), bytes(5, 24), bytes(6, 24)).unwrap();
    let blob = created.dek_bytes();
    assert!(!blob.windows(32).any(|w| w == &key[..]));
}

#[test]
fn value_rejects_tampered_ciphertext_and_dek() {
    let mut kms = KeyManagementService::new();
    let mut store = MasterKeyStore::new();
    rotate(&mut kms, &mut store, NOW, 1).unwrap();
    let created = EncryptedValue::new(&kms, b"user@example.com".to_vec(), bytes(4, 32), bytes(5, 24), bytes(6, 24)).unwrap();
    let ciphertext = created.ciphertext().clone();
    let dek = created.dek_bytes().clone();
    for bit in 0..(ciphertext.len() * 8) {
        let mut t = ciphertext.clone();
        t[bit / 8] ^= 1 << (bit % 8);
        let mut v = EncryptedValue::from_parts(t, dek.clone());
        assert_eq!(decrypt_value(&mut v, &kms, &store).unwrap_err().kind(), ErrorKind::Integrity);
        assert!(v.value().is_none());
    }
    // flipping a bit of the wrapped key or of a nonce breaks authentication
    for bit in (4 * 8)..((4 + 48 + 4 + 24 + 4 + 24) * 8) {
        let byte = bit / 8;
        if (52..56).contains(&byte) || (80..84).contains(&byte) {
            continue;
        }
        let mut t = dek.clone();
        t[byte] ^= 1 << (bit % 8);
        let mut v = EncryptedValue::from_parts(ciphertext.clone(), t);
        assert!(decrypt_value(&mut v, &kms, &store).is_err());
        assert!(v.value().is_none());
    }
}

#[test]
fn value_without_master_key_fails() {
    let kms = KeyManagementService::new();
    let e = EncryptedValue::new(&kms, b"x".to_vec(), bytes(4, 32), bytes(5, 24), bytes(6, 24)).err().unwrap();
    assert_eq!(e.kind(), ErrorKind::MasterKeyNotFound);
}

#[test]
fn historical_dek_decrypts_after_rotation() {
    let mut kms = KeyManagementService::new();
    let mut store = MasterKeyStore::new();
    rotate(&mut kms, &mut store, NOW, 1).unwrap();
    let a = kms.current_id().unwrap();
    let created = EncryptedValue::new(&kms, b"old secret".to_vec(), bytes(4, 32), bytes(5, 24), bytes(6, 24)).unwrap();
    rotate(&mut kms, &mut store, NOW + MASTER_KEY_LIFETIME + 1, 2).unwrap();
    let b = kms.current_id().unwrap();
    assert_ne!(a, b);
    let mut stored = EncryptedValue::from_parts(created.ciphertext().clone(), created.dek_bytes().clone());
    let dek = Dek::from_bytes(stored.dek_bytes()).unwrap();
    assert_eq!(kms.master_key_source(&dek), MasterKeySource::Historical(a));
    // without the historical material the DEK cannot be unwrapped
    assert_eq!(stored.decrypt(&kms, None).unwrap_err().kind(), ErrorKind::MasterKeyNotFound);
    decrypt_value(&mut stored, &kms, &store).unwrap();
    assert_eq!(stored.value().unwrap(), &b"old secret".to_vec());
}

#[test]
fn historical_dek_with_wrong_material_fails() {
    let mut kms = KeyManagementService::new();
    let mut store = MasterKeyStore::new();
    rotate(&mut kms, &mut store, NOW, 1).unwrap();
    let created = EncryptedValue::new(&kms, b"old secret".to_vec(), bytes(4, 32), bytes(5, 24), bytes(6, 24)).unwrap();
    rotate(&mut kms, &mut store, NOW + MASTER_KEY_LIFETIME, 2).unwrap();
    let mut stored = EncryptedValue::from_parts(created.ciphertext().clone(), created.dek_bytes().clone());
    let wrong = bytes(2, 32);
    assert_eq!(stored.decrypt(&kms, Some(&wrong)).unwrap_err().kind(), ErrorKind::Integrity);
    assert_eq!(stored.decrypt(&kms, Some(&wrong[..16])).unwrap_err().kind(), ErrorKind::Vault);
}

#[test]
fn failed_unwrap_leaves_the_dek_unchanged() {
    let mut kms = KeyManagementService::new();
    let mut store = MasterKeyStore::new();
    rotate(&mut kms, &mut store, NOW, 1).unwrap();
    let mut dek = Dek::new(vec![9; 5], bytes(8, 24), 4242, bytes(9, 24), bytes(1, 48));
    assert_eq!(kms.decrypt_dek(&mut dek, None).unwrap_err().kind(), ErrorKind::MasterKeyNotFound);
    assert_eq!(dek.key, vec![9; 5]);
    assert_eq!(kms.decrypt_dek(&mut dek, Some(&bytes(3, 32))).unwrap_err().kind(), ErrorKind::Integrity);
    assert_eq!(dek.key, vec![9; 5]);
    assert_eq!(dek.master_key_id, 4242);
}

#[test]
fn value_with_wrong_random_lengths_is_a_vault_error() {
    let mut kms = KeyManagementService::new();
    let mut store = MasterKeyStore::new();
    rotate(&mut kms, &mut store, NOW, 1).unwrap();
    let e = EncryptedValue::new(&kms, b"x".to_vec(), bytes(4, 31), bytes(5, 24), bytes(6, 24)).err().unwrap();
    assert_eq!(e.kind(), ErrorKind::Vault);
    let e = EncryptedValue::new(&kms, b"x".to_vec(), bytes(4, 32), bytes(5, 25), bytes(6, 24)).err().unwrap();
    assert_eq!(e.kind(), ErrorKind::Vault);
}

#[test]
fn store_encoding_round_trip() {
    let mut kms = KeyManagementService::new();
    let mut store = MasterKeyStore::new();
    rotate(&mut kms, &mut store, NOW, 1).unwrap();
    rotate(&mut kms, &mut store, NOW + MASTER_KEY_LIFETIME, 2).unwrap();
    let bytes_out = store.to_bytes();
    let loaded = MasterKeyStore::from_bytes(&bytes_out).unwrap();
    for id in 1..=2 {
        let a = store.read(id).unwrap();
        let b = loaded.read(id).unwrap();
        assert_eq!((a.id, a.created_at, a.expires_at, a.is_active, a.wrapped_key.clone()), (b.id, b.created_at, b.expires_at, b.is_active, b.wrapped_key.clone()));
    }
    assert_eq!(loaded.read_current_active().unwrap().id, kms.current_id().unwrap());
    assert_eq!(loaded.to_bytes(), bytes_out);
    assert!(MasterKeyStore::from_bytes(&[]).unwrap().read_current_active().is_none());
}

#[test]
fn store_decoding_refuses_bad_input() {
    let mut store = MasterKeyStore::new();
    store.create(-5, NOW, true, vec![1, 2, 3]).unwrap();
    let encoded = store.to_bytes();
    assert_eq!(MasterKeyStore::from_bytes(&encoded[..encoded.len() - 1]).err().unwrap().kind(), ErrorKind::Malformed);
    let mut twice = encoded.clone();
    twice.extend_from_slice(&encoded);
    assert_eq!(MasterKeyStore::from_bytes(&twice).err().unwrap().kind(), ErrorKind::Store);
    let record = MasterKey::from_bytes(&store.read(1).unwrap().to_bytes()).unwrap();
    assert_eq!(record.created_at, -5);
    let mut other = MasterKeyStore::new();
    other.restore(MasterKey { id: 7, created_at: 0, expires_at: 1, is_active: false, wrapped_key: vec![] }).unwrap();
    assert_eq!(other.create(0, 1, false, vec![]).unwrap(), 8);
    assert_eq!(other.restore(MasterKey { id: 7, created_at: 0, expires_at: 1, is_active: false, wrapped_key: vec![] }).unwrap_err().kind(), ErrorKind::Store);
}
