use crate::cipher::{opened, sealed, ChaCha20Poly1305, KEY_SIZE, NONCE_SIZE, TAG_SIZE};
use crate::dek::Dek;
use crate::error::{Error, ErrorKind};
use crate::store::{at_most_one_active, has_active, has_id, MasterKey, MasterKeyStore, MasterKeyView};
use vstd::prelude::*;

verus! {

/// How long a master key stays current: ninety days, in seconds.
pub const MASTER_KEY_LIFETIME: i64 = 90 * 24 * 60 * 60;

/// The view of an optional record.
pub open spec fn opt_view(m: Option<MasterKey>) -> Option<MasterKeyView> {
    match m {
        Some(k) => Some(k@),
        None => None,
    }
}

/// A new master key is due: there is no active one, or it has expired.
pub open spec fn rotation_needed(active: Option<MasterKeyView>, now: i64) -> bool {
    match active {
        None => true,
        Some(m) => m.expires_at <= now,
    }
}

/// `s` with every record inactive.
pub open spec fn deactivated(s: Seq<MasterKeyView>) -> Seq<MasterKeyView> {
    s.map_values(|m: MasterKeyView| MasterKeyView { is_active: false, ..m })
}

/// The record that a rotation at `now` creates.
pub open spec fn successor(id: u64, now: i64, wrapped: Seq<u8>) -> MasterKeyView {
    MasterKeyView {
        id,
        created_at: now,
        expires_at: (now + MASTER_KEY_LIFETIME) as i64,
        is_active: true,
        wrapped_key: wrapped,
    }
}

/// After a rotation the store holds exactly one active master key: the successor.
pub proof fn lemma_rotation_leaves_one_active(s: Seq<MasterKeyView>, n: MasterKeyView)
    requires
        n.is_active,
    ensures
        at_most_one_active(deactivated(s).push(n)),
        forall|i: int|
            0 <= i < s.len() + 1 && (#[trigger] deactivated(s).push(n)[i]).is_active ==> i
                == s.len(),
{
}

/// Rotating again with no time passed keeps the successor: it is the only active record
/// and it has not expired, so the rotation check keeps it.
pub proof fn lemma_rotation_is_stable(s: Seq<MasterKeyView>, id: u64, now: i64, wrapped: Seq<u8>)
    requires
        now <= i64::MAX - MASTER_KEY_LIFETIME,
    ensures
        forall|m: MasterKeyView|
            #[trigger] deactivated(s).push(successor(id, now, wrapped)).contains(m) && m.is_active
                ==> m == successor(id, now, wrapped),
        !rotation_needed(Some(successor(id, now, wrapped)), now),
        has_active(deactivated(s).push(successor(id, now, wrapped))),
{
    let t = deactivated(s).push(successor(id, now, wrapped));
    assert(t[s.len() as int].is_active);
    assert forall|m: MasterKeyView| #[trigger] t.contains(m) && m.is_active implies m == successor(
        id,
        now,
        wrapped,
    ) by {
        let i = choose|i: int| 0 <= i < t.len() && t[i] == m;
        lemma_rotation_leaves_one_active(s, successor(id, now, wrapped));
    }
}

/// Rotating retires the old master key: it stays retrievable by identity, is no longer
/// active, and the successor has a new identity.
pub proof fn lemma_rotation_retires_old_key(
    s: Seq<MasterKeyView>,
    old_id: u64,
    id: u64,
    now: i64,
    wrapped: Seq<u8>,
)
    requires
        has_id(s, old_id),
        !has_id(s, id),
    ensures
        has_id(deactivated(s).push(successor(id, now, wrapped)), old_id),
        forall|i: int|
            0 <= i < s.len() + 1 && #[trigger] deactivated(s).push(successor(id, now, wrapped))[i].id
                == old_id ==> !deactivated(s).push(successor(id, now, wrapped))[i].is_active,
        id != old_id,
{
    let t = deactivated(s).push(successor(id, now, wrapped));
    let k = choose|k: int| 0 <= k < s.len() && #[trigger] s[k].id == old_id;
    assert(t[k].id == old_id);
}

/// What a rotation check concludes.
#[derive(Clone, Copy, Debug, PartialEq, Eq, Structural)]
pub enum RotationDecision {
    /// The active master key is still valid: unwrap it and keep it current.
    Keep,
    /// Retire the active master key, if any, and generate a successor.
    Replace,
}

/// Decides, from the active record of the store, whether a new master key is due.
pub fn decide_rotation(active: &Option<MasterKey>, now: i64) -> (r: RotationDecision)
    ensures
        r == RotationDecision::Replace <==> rotation_needed(opt_view(*active), now),
{
    match active {
        Some(m) => if m.expires_at > now {
            RotationDecision::Keep
        } else {
            RotationDecision::Replace
        },
        None => RotationDecision::Replace,
    }
}

/// The current master key: its record and its plaintext material, held in memory only.
pub struct CurrentMasterKey {
    pub record: MasterKey,
    pub material: Vec<u8>,
}

/// Where the master key that unwraps a DEK comes from.
#[derive(Clone, Copy, Debug, PartialEq, Eq, Structural)]
pub enum MasterKeySource {
    /// The DEK was wrapped under the current master key.
    Current,
    /// The DEK was wrapped under the historical master key of this identity: fetch its
    /// record from the store and unwrap its material through the vault.
    Historical(u64),
}

/// The key management service: owns the current master key, rotates it, and issues and
/// unwraps data-encryption keys.
pub struct KeyManagementService {
    current: Option<CurrentMasterKey>,
}

impl KeyManagementService {
    /// The record of the current master key, if one is loaded.
    pub closed spec fn current_record(&self) -> Option<MasterKeyView> {
        match self.current {
            Some(c) => Some(c.record@),
            None => None,
        }
    }

    /// The plaintext material of the current master key.
    pub closed spec fn current_material(&self) -> Seq<u8> {
        match self.current {
            Some(c) => c.material@,
            None => Seq::empty(),
        }
    }

    pub closed spec fn wf(&self) -> bool {
        self.current matches Some(c) ==> c.material@.len() == KEY_SIZE
    }

    /// A service with no master key loaded yet.
    pub fn new() -> (r: KeyManagementService)
        ensures
            r.wf(),
            r.current_record() is None,
    {
        KeyManagementService { current: None }
    }

    /// The identity of the current master key, if one is loaded.
    pub fn current_id(&self) -> (r: Option<u64>)
        ensures
            r == (match self.current_record() {
                Some(m) => Some(m.id),
                None => None,
            }),
    {
        match &self.current {
            Some(c) => Some(c.record.id),
            None => None,
        }
    }

    /// Keeps the active, unexpired record `active`, whose material the vault unwrapped, as
    /// the current master key.
    pub fn adopt(&mut self, active: MasterKey, material: Vec<u8>, now: i64) -> (r: Result<
        (),
        Error,
    >)
        requires
            old(self).wf(),
        ensures
            final(self).wf(),
            r is Ok <==> material@.len() == KEY_SIZE && active.is_active && active.expires_at
                > now,
            r is Ok ==> final(self).current_record() == Some(active@)
                && final(self).current_material() == material@,
            r is Err ==> final(self).current_record() == old(self).current_record()
                && final(self).current_material() == old(self).current_material(),
            r matches Err(e) ==> e.kind == (if material@.len() != KEY_SIZE {
                ErrorKind::Vault
            } else {
                ErrorKind::Other
            }),
    {
        if material.len() != KEY_SIZE {
            return Err(Error::new(ErrorKind::Vault, "unwrapped master key has a wrong length"));
        }
        if !active.is_active || active.expires_at <= now {
            return Err(Error::new(ErrorKind::Other, "master key is not active and current"));
        }
        self.current = Some(CurrentMasterKey { record: active, material });
        Ok(())
    }

    /// Retires the active master key of `store`, if any, and makes a successor current:
    /// `material` is its plaintext from the vault's random generator, `wrapped` the same
    /// wrapped by the vault. The successor is active and expires ninety days after `now`.
    pub fn replace(
        &mut self,
        store: &mut MasterKeyStore,
        now: i64,
        material: Vec<u8>,
        wrapped: Vec<u8>,
    ) -> (r: Result<u64, Error>)
        requires
            old(self).wf(),
            old(store).wf(),
        ensures
            final(self).wf(),
            final(store).wf(),
            material@.len() != KEY_SIZE ==> (r matches Err(e) && e.kind == ErrorKind::Vault
                && final(store)@ == old(store)@),
            material@.len() == KEY_SIZE && now > i64::MAX - MASTER_KEY_LIFETIME ==> (r matches Err(
                e,
            ) && e.kind == ErrorKind::Other && final(store)@ == old(store)@),
            r matches Ok(id) ==> !has_id(old(store)@, id) && final(store)@ == deactivated(
                old(store)@,
            ).push(successor(id, now, wrapped@)) && final(self).current_record() == Some(final(store)@.last())
                && final(self).current_material() == material@,
            r is Err ==> final(self).current_record() == old(self).current_record()
                && final(self).current_material() == old(self).current_material(),
            material@.len() == KEY_SIZE && now <= i64::MAX - MASTER_KEY_LIFETIME ==> (r is Err
                <==> old(store).identities_exhausted()),
            material@.len() == KEY_SIZE && now <= i64::MAX - MASTER_KEY_LIFETIME && r is Err ==> (r matches Err(e) && e.kind
                == ErrorKind::Store && final(store)@ == deactivated(old(store)@)),
    {
        if material.len() != KEY_SIZE {
            return Err(Error::new(ErrorKind::Vault, "generated master key has a wrong length"));
        }
        if now > i64::MAX - MASTER_KEY_LIFETIME {
            return Err(Error::new(ErrorKind::Other, "time out of range for a master key"));
        }
        let ghost s0 = store@;
        proof {
            store.lemma_at_most_one_active();
            store.lemma_ids_unique();
        }
        match store.read_current_active() {
            Some(a) => {
                let res = store.update_metadata(a.id, a.expires_at, false);
                proof {
                    let i = choose|i: int| 0 <= i < s0.len() && s0[i] == a@;
                    assert(s0[i].id == a.id);
                    assert(has_id(s0, a.id));
                    let k = choose|k: int|
                        0 <= k < s0.len() && s0[k].id == a.id && store@ == s0.update(
                            k,
                            MasterKeyView { expires_at: a.expires_at, is_active: false, ..s0[k] },
                        );
                    assert(s0[k].is_active) by {
                        if k != i {
                            // identities are unique in a well-formed store
                            assert(s0[k].id == s0[i].id);
                        }
                    }
                    assert forall|j: int| 0 <= j < s0.len() && j != k implies !s0[j].is_active by {
                        assert(at_most_one_active(s0));
                    }
                    assert(store@ =~= deactivated(s0));
                }
            },
            None => {
                proof {
                    assert(store@ =~= deactivated(s0)) by {
                        assert forall|j: int| 0 <= j < s0.len() implies !s0[j].is_active by {
                            if s0[j].is_active {
                                assert(has_active(s0));
                            }
                        }
                    }
                }
            },
        }
        let expires_at = now + MASTER_KEY_LIFETIME;
        let ghost s1 = store@;
        assert(!has_active(s1));
        let wrapped_copy = wrapped.clone();
        let id = store.create(now, expires_at, true, wrapped)?;
        assert(!has_id(s0, id)) by {
            if has_id(s0, id) {
                let j = choose|j: int| 0 <= j < s0.len() && #[trigger] s0[j].id == id;
                assert(s1[j].id == id);
            }
        }
        let record = MasterKey { id, created_at: now, expires_at, is_active: true, wrapped_key: wrapped_copy };
        self.current = Some(CurrentMasterKey { record, material });
        Ok(id)
    }

    /// Where the master key that unwraps `dek` comes from.
    pub fn master_key_source(&self, dek: &Dek) -> (r: MasterKeySource)
        ensures
            r == (match self.current_record() {
                Some(m) if m.id == dek.master_key_id => MasterKeySource::Current,
                _ => MasterKeySource::Historical(dek.master_key_id),
            }),
    {
        match &self.current {
            Some(c) => if c.record.id == dek.master_key_id {
                MasterKeySource::Current
            } else {
                MasterKeySource::Historical(dek.master_key_id)
            },
            None => MasterKeySource::Historical(dek.master_key_id),
        }
    }

    /// The record of the historical master key `id`; its absence is a data-integrity
    /// failure, `MasterKeyNotFound`.
    pub fn load_master_key(store: &MasterKeyStore, id: u64) -> (r: Result<MasterKey, Error>)
        requires
            store.wf(),
        ensures
            r matches Ok(m) ==> m.id == id && store@.contains(m@),
            r is Err <==> !has_id(store@, id),
            r matches Err(e) ==> e.kind == ErrorKind::MasterKeyNotFound,
    {
        match store.read(id) {
            Some(m) => Ok(m),
            None => Err(Error::new(ErrorKind::MasterKeyNotFound, "master_key_not_found")),
        }
    }

    /// Issues a fresh DEK: `key`, `nonce` and `wrapping_nonce` come from the vault's random
    /// generator; the key is wrapped under the current master key with the wrapping nonce.
    pub fn generate_dek(&self, key: Vec<u8>, nonce: Vec<u8>, wrapping_nonce: Vec<u8>) -> (r:
        Result<Dek, Error>)
        requires
            self.wf(),
        ensures
            r is Ok <==> self.current_record() is Some && key@.len() == KEY_SIZE && nonce@.len()
                == NONCE_SIZE && wrapping_nonce@.len() == NONCE_SIZE,
            self.current_record() is None ==> (r matches Err(e) && e.kind
                == ErrorKind::MasterKeyNotFound),
            self.current_record() is Some && !(key@.len() == KEY_SIZE && nonce@.len() == NONCE_SIZE
                && wrapping_nonce@.len() == NONCE_SIZE) ==> (r matches Err(e) && e.kind
                == ErrorKind::Vault),
            r matches Ok(d) ==> d.key@ == key@ && d.nonce@ == nonce@ && d.wrapping_nonce@
                == wrapping_nonce@ && Some(d.master_key_id) == (match self.current_record() {
                Some(m) => Some(m.id),
                None => None,
            }) && d.wrapped_key@ == sealed(
                self.current_material(),
                wrapping_nonce@,
                key@,
            ) && opened(self.current_material(), wrapping_nonce@, d.wrapped_key@) == Some(key@)
                && d.wrapped_key@.len() == KEY_SIZE + TAG_SIZE,
    {
        let c = match &self.current {
            Some(c) => c,
            None => {
                return Err(Error::new(ErrorKind::MasterKeyNotFound, "no master key is loaded"));
            },
        };
        if key.len() != KEY_SIZE || nonce.len() != NONCE_SIZE || wrapping_nonce.len()
            != NONCE_SIZE {
            return Err(Error::new(ErrorKind::Vault, "random bytes of a wrong length"));
        }
        let cipher = ChaCha20Poly1305;
        let wrapped = cipher.encrypt(key.as_slice(), c.material.as_slice(), wrapping_nonce.as_slice())?;
        Ok(Dek::new(key, nonce, c.record.id, wrapping_nonce, wrapped))
    }

    /// The material that unwraps a DEK of master key `id`: the current one's, or the
    /// historical one that the vault unwrapped.
    pub closed spec fn unwrapping_material(&self, id: u64, historical: Option<Seq<u8>>) -> Option<
        Seq<u8>,
    > {
        match self.current {
            Some(c) if c.record.id == id => Some(c.material@),
            _ => historical,
        }
    }

    /// The current master key material is a full key.
    pub proof fn lemma_material_length(&self)
        requires
            self.wf(),
        ensures
            self.current_record() is Some ==> self.current_material().len() == KEY_SIZE,
    {
    }

    pub proof fn lemma_current_material(&self, id: u64, historical: Option<Seq<u8>>)
        ensures
            self.current_record() matches Some(m) && m.id == id ==> self.unwrapping_material(
                id,
                historical,
            ) == Some(self.current_material()),
            !(self.current_record() matches Some(m) && m.id == id) ==> self.unwrapping_material(
                id,
                historical,
            ) == historical,
    {
    }

    /// Unwraps `dek` in place. `historical` is the plaintext material of the master key
    /// that the DEK references, where that is not the current one.
    pub fn decrypt_dek(&self, dek: &mut Dek, historical: Option<&[u8]>) -> (r: Result<(), Error>)
        requires
            self.wf(),
        ensures
            final(dek).record() == old(dek).record(),
            r is Err ==> final(dek).key@ == old(dek).key@,
            match self.unwrapping_material(
                old(dek).master_key_id,
                match historical {
                    Some(h) => Some(h@),
                    None => None,
                },
            ) {
                None => r matches Err(e) && e.kind == ErrorKind::MasterKeyNotFound,
                Some(m) => if m.len() != KEY_SIZE {
                    r matches Err(e) && e.kind == ErrorKind::Vault
                } else if old(dek).wrapping_nonce@.len() != NONCE_SIZE {
                    r matches Err(e) && e.kind == ErrorKind::Malformed
                } else {
                    match opened(m, old(dek).wrapping_nonce@, old(dek).wrapped_key@) {
                        Some(k) => r is Ok && final(dek).key@ == k,
                        None => r matches Err(e) && e.kind == ErrorKind::Integrity,
                    }
                },
            },
    {
        let material: &[u8] = match &self.current {
            Some(c) if c.record.id == dek.master_key_id => c.material.as_slice(),
            _ => match historical {
                Some(h) => h,
                None => {
                    return Err(Error::new(ErrorKind::MasterKeyNotFound, "master_key_not_found"));
                },
            },
        };
        if material.len() != KEY_SIZE {
            return Err(Error::new(ErrorKind::Vault, "unwrapped master key has a wrong length"));
        }
        if dek.wrapping_nonce.len() != NONCE_SIZE {
            return Err(Error::new(ErrorKind::Malformed, "wrapping nonce has a wrong length"));
        }
        let cipher = ChaCha20Poly1305;
        let key = cipher.decrypt(dek.wrapped_key.as_slice(), material, dek.wrapping_nonce.as_slice())?;
        dek.key = key;
        Ok(())
    }
}

} // verus!
