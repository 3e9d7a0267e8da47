use crate::codec::{
    be64, be64_value, framed64, lemma_be64_round_trip, lemma_read_framed64, push_all, push_be64,
    push_framed64, read_be64, read_framed64, read_framed64_at,
};
use crate::error::{Error, ErrorKind};
use vstd::prelude::*;

verus! {

/// What a master key record holds, as plain values.
pub struct MasterKeyView {
    pub id: u64,
    pub created_at: i64,
    pub expires_at: i64,
    pub is_active: bool,
    pub wrapped_key: Seq<u8>,
}

/// A persisted master key record: its identity, its lifetime in seconds since the epoch,
/// whether it is the active key, and its material wrapped by the cloud key vault. The
/// plaintext material is never part of it.
#[derive(Debug)]
pub struct MasterKey {
    pub id: u64,
    pub created_at: i64,
    pub expires_at: i64,
    pub is_active: bool,
    pub wrapped_key: Vec<u8>,
}

impl View for MasterKey {
    type V = MasterKeyView;

    open spec fn view(&self) -> MasterKeyView {
        MasterKeyView {
            id: self.id,
            created_at: self.created_at,
            expires_at: self.expires_at,
            is_active: self.is_active,
            wrapped_key: self.wrapped_key@,
        }
    }
}

impl MasterKey {
    /// A copy of the record.
    pub fn snapshot(&self) -> (r: MasterKey)
        ensures
            r@ == self@,
    {
        MasterKey {
            id: self.id,
            created_at: self.created_at,
            expires_at: self.expires_at,
            is_active: self.is_active,
            wrapped_key: self.wrapped_key.clone(),
        }
    }

    pub fn get_id(&self) -> (r: u64)
        ensures
            r == self.id,
    {
        self.id
    }

    /// The binary encoding of the record.
    pub fn to_bytes(&self) -> (r: Vec<u8>)
        ensures
            r@ == master_key_bytes(self@),
    {
        let mut out: Vec<u8> = Vec::new();
        push_be64(&mut out, self.id);
        push_be64(&mut out, self.created_at as u64);
        push_be64(&mut out, self.expires_at as u64);
        out.push(if self.is_active { 1u8 } else { 0u8 });
        push_framed64(&mut out, self.wrapped_key.as_slice());
        assert(out@ =~= master_key_bytes(self@));
        out
    }

    /// Decodes a record from its binary encoding.
    pub fn from_bytes(encoded: &[u8]) -> (r: Result<MasterKey, Error>)
        ensures
            match parse_master_key(encoded@) {
                Some(m) => r matches Ok(k) && k@ == m,
                None => r matches Err(e) && e.kind == ErrorKind::Malformed,
            },
    {
        let ghost s = encoded@;
        if encoded.len() < 25 || encoded[24] > 1 {
            return Err(Error::new(ErrorKind::Malformed, "malformed master key record"));
        }
        let (wrapped_key, end) = match read_framed64_at(encoded, 25) {
            Some(x) => x,
            None => {
                return Err(Error::new(ErrorKind::Malformed, "malformed master key record"));
            },
        };
        if end != encoded.len() {
            return Err(Error::new(ErrorKind::Malformed, "malformed master key record"));
        }
        let id = read_be64(encoded, 0);
        let created_at = read_be64(encoded, 8) as i64;
        let expires_at = read_be64(encoded, 16) as i64;
        Ok(MasterKey { id, created_at, expires_at, is_active: encoded[24] == 1, wrapped_key })
    }
}

/// The encoding of a record: identity, creation and expiry times as eight big-endian bytes
/// each (times in two's complement), the active flag as one byte, then the wrapped key
/// framed by its length.
pub open spec fn master_key_bytes(m: MasterKeyView) -> Seq<u8> {
    be64(m.id) + be64(m.created_at as u64) + be64(m.expires_at as u64) + seq![
        if m.is_active {
            1u8
        } else {
            0u8
        },
    ] + framed64(m.wrapped_key)
}

/// The record that `s` encodes, if it encodes one.
pub open spec fn parse_master_key(s: Seq<u8>) -> Option<MasterKeyView> {
    if s.len() < 25 || s[24] > 1 {
        None
    } else {
        match read_framed64(s.subrange(25, s.len() as int)) {
            Some((w, rest)) => if rest.len() == 0 {
                Some(
                    MasterKeyView {
                        id: be64_value(s.subrange(0, 8)) as u64,
                        created_at: (be64_value(s.subrange(8, 16)) as u64) as i64,
                        expires_at: (be64_value(s.subrange(16, 24)) as u64) as i64,
                        is_active: s[24] == 1,
                        wrapped_key: w,
                    },
                )
            } else {
                None
            },
            None => None,
        }
    }
}

/// The encoding of a sequence of records: each record's encoding framed by its length.
pub open spec fn store_bytes(recs: Seq<MasterKeyView>) -> Seq<u8>
    decreases recs.len(),
{
    if recs.len() == 0 {
        Seq::empty()
    } else {
        framed64(master_key_bytes(recs[0])) + store_bytes(recs.skip(1))
    }
}

/// The records that `s` encodes, if it encodes a sequence of them.
pub open spec fn parse_records(s: Seq<u8>) -> Option<Seq<MasterKeyView>>
    decreases s.len(),
{
    if s.len() == 0 {
        Some(Seq::empty())
    } else {
        match read_framed64(s) {
            None => None,
            Some((b, rest)) => match parse_master_key(b) {
                None => None,
                Some(m) => match parse_records(rest) {
                    None => None,
                    Some(t) => Some(seq![m] + t),
                },
            },
        }
    }
}

proof fn lemma_time_round_trip(t: i64)
    ensures
        ((t as u64) as i64) == t,
{
    assert(((t as u64) as i64) == t) by (bit_vector);
}

/// Decoding an encoded record gives back the same record.
pub proof fn lemma_master_key_round_trip(m: MasterKeyView)
    requires
        m.wrapped_key.len() <= u64::MAX,
    ensures
        parse_master_key(master_key_bytes(m)) == Some(m),
{
    let s = master_key_bytes(m);
    lemma_be64_round_trip(m.id);
    lemma_be64_round_trip(m.created_at as u64);
    lemma_be64_round_trip(m.expires_at as u64);
    lemma_time_round_trip(m.created_at);
    lemma_time_round_trip(m.expires_at);
    assert(s.subrange(0, 8) =~= be64(m.id));
    assert(s.subrange(8, 16) =~= be64(m.created_at as u64));
    assert(s.subrange(16, 24) =~= be64(m.expires_at as u64));
    assert(s.subrange(25, s.len() as int) =~= framed64(m.wrapped_key) + Seq::<u8>::empty());
    lemma_read_framed64(m.wrapped_key, Seq::empty());
}

/// Decoding the encoding of a sequence of records gives back the same records.
#[verifier::rlimit(50)]
pub proof fn lemma_store_round_trip(recs: Seq<MasterKeyView>)
    requires
        forall|i: int| 0 <= i < recs.len() ==> (#[trigger] recs[i]).wrapped_key.len() + 33
            <= u64::MAX,
    ensures
        parse_records(store_bytes(recs)) == Some(recs),
    decreases recs.len(),
{
    if recs.len() > 0 {
        let b = master_key_bytes(recs[0]);
        let rest = store_bytes(recs.skip(1));
        assert forall|i: int| 0 <= i < recs.skip(1).len() implies (#[trigger] recs.skip(
            1,
        )[i]).wrapped_key.len() + 33 <= u64::MAX by {
            assert(recs.skip(1)[i] == recs[i + 1]);
        }
        lemma_store_round_trip(recs.skip(1));
        lemma_master_key_round_trip(recs[0]);
        assert(b.len() == 33 + recs[0].wrapped_key.len());
        lemma_read_framed64(b, rest);
        let whole = store_bytes(recs);
        assert(whole == framed64(b) + rest);
        assert(read_framed64(whole) == Some((b, rest)));
        assert(whole.len() > 0);
        assert(seq![recs[0]] + recs.skip(1) =~= recs);
    }
}

/// No two records of `s` are active.
pub open spec fn at_most_one_active(s: Seq<MasterKeyView>) -> bool {
    forall|i: int, j: int|
        0 <= i < s.len() && 0 <= j < s.len() && #[trigger] s[i].is_active
            && #[trigger] s[j].is_active ==> i == j
}

/// Some record of `s` has identity `id`.
pub open spec fn has_id(s: Seq<MasterKeyView>, id: u64) -> bool {
    exists|i: int| 0 <= i < s.len() && #[trigger] s[i].id == id
}

/// Some record of `s` is active.
pub open spec fn has_active(s: Seq<MasterKeyView>) -> bool {
    exists|i: int| 0 <= i < s.len() && #[trigger] s[i].is_active
}

/// The durable record of master keys: records are never deleted, identities are never
/// reused, and at most one record is active.
pub struct MasterKeyStore {
    records: Vec<MasterKey>,
    next_id: u64,
}

impl View for MasterKeyStore {
    type V = Seq<MasterKeyView>;

    closed spec fn view(&self) -> Seq<MasterKeyView> {
        self.records@.map_values(|m: MasterKey| m@)
    }
}

impl MasterKeyStore {
    /// Identities are unique and below the next one to be handed out; at most one record
    /// is active.
    pub closed spec fn wf(&self) -> bool {
        &&& forall|i: int| 0 <= i < self@.len() ==> #[trigger] self@[i].id < self.next_id
        &&& forall|i: int, j: int|
            0 <= i < self@.len() && 0 <= j < self@.len() && #[trigger] self@[i].id
                == #[trigger] self@[j].id ==> i == j
        &&& at_most_one_active(self@)
    }

    /// Every identity that this store can hand out has been handed out.
    pub closed spec fn identities_exhausted(&self) -> bool {
        self.next_id == u64::MAX
    }

    /// At every observation of a well-formed store, at most one master key is active.
    pub proof fn lemma_at_most_one_active(&self)
        requires
            self.wf(),
        ensures
            at_most_one_active(self@),
    {
    }

    /// In a well-formed store, an identity names one record.
    pub proof fn lemma_ids_unique(&self)
        requires
            self.wf(),
        ensures
            forall|i: int, j: int|
                0 <= i < self@.len() && 0 <= j < self@.len() && #[trigger] self@[i].id
                    == #[trigger] self@[j].id ==> i == j,
    {
    }

    /// An empty store.
    pub fn new() -> (r: MasterKeyStore)
        ensures
            r.wf(),
            r@.len() == 0,
            !r.identities_exhausted(),
    {
        let r = MasterKeyStore { records: Vec::new(), next_id: 1 };
        assert(r@ =~= Seq::<MasterKeyView>::empty());
        r
    }

    fn position_of(&self, id: u64) -> (r: Option<usize>)
        requires
            self.wf(),
        ensures
            r matches Some(i) ==> i < self@.len() && self@[i as int].id == id,
            r is None ==> !has_id(self@, id),
    {
        let mut i: usize = 0;
        while i < self.records.len()
            invariant
                i <= self@.len(),
                self@.len() == self.records@.len(),
                forall|k: int| 0 <= k < i ==> #[trigger] self@[k].id != id,
            decreases self@.len() - i,
        {
            if self.records[i].id == id {
                return Some(i);
            }
            i = i + 1;
        }
        None
    }

    fn active_position(&self) -> (r: Option<usize>)
        requires
            self.wf(),
        ensures
            r matches Some(i) ==> i < self@.len() && self@[i as int].is_active,
            r is None ==> !has_active(self@),
    {
        let mut i: usize = 0;
        while i < self.records.len()
            invariant
                i <= self@.len(),
                self@.len() == self.records@.len(),
                forall|k: int| 0 <= k < i ==> !#[trigger] self@[k].is_active,
            decreases self@.len() - i,
        {
            if self.records[i].is_active {
                return Some(i);
            }
            i = i + 1;
        }
        None
    }

    /// Persists a new record and returns its fresh identity. A second active record is
    /// refused, as is a store whose identities are used up.
    pub fn create(&mut self, created_at: i64, expires_at: i64, is_active: bool, wrapped_key: Vec<
        u8,
    >) -> (r: Result<u64, Error>)
        requires
            old(self).wf(),
        ensures
            final(self).wf(),
            old(self).identities_exhausted() ==> r is Err,
            match r {
                Ok(id) => !has_id(old(self)@, id) && final(self)@ == old(self)@.push(
                    MasterKeyView { id, created_at, expires_at, is_active, wrapped_key: wrapped_key@ },
                ) && !(is_active && has_active(old(self)@)),
                Err(e) => final(self)@ == old(self)@ && e.kind == ErrorKind::Store && ((
                is_active && has_active(old(self)@)) || old(self).identities_exhausted()),
            },
    {
        if is_active {
            if let Some(_) = self.active_position() {
                return Err(Error::new(ErrorKind::Store, "another master key is active"));
            }
        }
        if self.next_id == u64::MAX {
            return Err(Error::new(ErrorKind::Store, "master key identities exhausted"));
        }
        let id = self.next_id;
        let ghost before = self@;
        self.records.push(MasterKey { id, created_at, expires_at, is_active, wrapped_key });
        self.next_id = self.next_id + 1;
        assert(self@ =~= before.push(self@[before.len() as int]));
        assert(!has_id(before, id)) by {
            if has_id(before, id) {
                let k = choose|k: int| 0 <= k < before.len() && #[trigger] before[k].id == id;
                assert(before[k].id < id);
            }
        }
        assert forall|i: int, j: int|
            0 <= i < self@.len() && 0 <= j < self@.len() && #[trigger] self@[i].is_active
                && #[trigger] self@[j].is_active implies i == j by {
            if i != j && (i == before.len() || j == before.len()) {
                let k = if i == before.len() { j } else { i };
                assert(before[k].is_active);
                assert(has_active(before));
            }
        }
        Ok(id)
    }

    /// Puts back a record read from persistent storage, keeping its identity. A record
    /// whose identity is taken or is the largest one, or a second active record, is
    /// refused.
    pub fn restore(&mut self, record: MasterKey) -> (r: Result<(), Error>)
        requires
            old(self).wf(),
        ensures
            final(self).wf(),
            r is Ok <==> !has_id(old(self)@, record.id) && record.id < u64::MAX && !(
            record.is_active && has_active(old(self)@)),
            r is Ok ==> final(self)@ == old(self)@.push(record@),
            r is Err ==> final(self)@ == old(self)@,
            r matches Err(e) ==> e.kind == ErrorKind::Store,
    {
        if record.id == u64::MAX {
            return Err(Error::new(ErrorKind::Store, "master key identity out of range"));
        }
        if let Some(_) = self.position_of(record.id) {
            return Err(Error::new(ErrorKind::Store, "master key identity already present"));
        }
        if record.is_active {
            if let Some(_) = self.active_position() {
                return Err(Error::new(ErrorKind::Store, "another master key is active"));
            }
        }
        let ghost before = self@;
        let ghost rv = record@;
        let id = record.id;
        self.records.push(record);
        if self.next_id <= id {
            self.next_id = id + 1;
        }
        assert(self@ =~= before.push(rv));
        assert forall|i: int, j: int|
            0 <= i < self@.len() && 0 <= j < self@.len() && #[trigger] self@[i].is_active
                && #[trigger] self@[j].is_active implies i == j by {
            if i != j && (i == before.len() || j == before.len()) {
                let k = if i == before.len() { j } else { i };
                assert(before[k].is_active);
                assert(has_active(before));
            }
        }
        assert forall|i: int, j: int|
            0 <= i < self@.len() && 0 <= j < self@.len() && #[trigger] self@[i].id
                == #[trigger] self@[j].id implies i == j by {
            if i != j && (i == before.len() || j == before.len()) {
                let k = if i == before.len() { j } else { i };
                assert(before[k].id == id);
                assert(has_id(before, id));
            }
        }
        Ok(())
    }

    /// The binary encoding of all records, in the order they were made or restored.
    pub fn to_bytes(&self) -> (r: Vec<u8>)
        ensures
            r@ == store_bytes(self@),
    {
        let mut out: Vec<u8> = Vec::new();
        let mut i: usize = self.records.len();
        let ghost v = self@;
        assert(store_bytes(v.skip(v.len() as int)) =~= Seq::<u8>::empty());
        let mut tail: Vec<u8> = Vec::new();
        // build from the back so that each step prepends one framed record
        while i > 0
            invariant
                i <= v.len(),
                v == self@,
                self@.len() == self.records@.len(),
                tail@ == store_bytes(v.skip(i as int)),
            decreases i,
        {
            i = i - 1;
            let rec = self.records[i].to_bytes();
            let mut piece: Vec<u8> = Vec::new();
            push_framed64(&mut piece, rec.as_slice());
            push_all(&mut piece, tail.as_slice());
            assert(v.skip(i as int).skip(1) =~= v.skip(i + 1));
            assert(v.skip(i as int)[0] == v[i as int]);
            tail = piece;
        }
        assert(v.skip(0) =~= v);
        push_all(&mut out, tail.as_slice());
        assert(out@ =~= tail@);
        out
    }

    /// The store that `encoded` holds. Bytes that do not encode records are malformed;
    /// records that break the store's rules (a repeated identity, two active keys) are
    /// refused.
    pub fn from_bytes(encoded: &[u8]) -> (r: Result<MasterKeyStore, Error>)
        ensures
            r matches Ok(st) ==> st.wf() && parse_records(encoded@) == Some(st@),
            parse_records(encoded@) is None ==> r is Err,
            r matches Err(e) ==> e.kind == ErrorKind::Malformed || e.kind == ErrorKind::Store,
            parse_records(encoded@) is Some && r is Err ==> (r matches Err(e) && e.kind
                == ErrorKind::Store),
    {
        let mut store = MasterKeyStore::new();
        let ghost s = encoded@;
        let mut pos: usize = 0;
        assert(s.subrange(0, s.len() as int) =~= s);
        while pos < encoded.len()
            invariant
                pos <= s.len(),
                s == encoded@,
                store.wf(),
                parse_records(s) == match parse_records(s.subrange(pos as int, s.len() as int)) {
                    Some(t) => Some(store@ + t),
                    None => None,
                },
            decreases s.len() - pos,
        {
            let ghost t = s.subrange(pos as int, s.len() as int);
            let (bytes, next) = match read_framed64_at(encoded, pos) {
                Some(x) => x,
                None => {
                    return Err(Error::new(ErrorKind::Malformed, "malformed master key store"));
                },
            };
            let record = match MasterKey::from_bytes(bytes.as_slice()) {
                Ok(m) => m,
                Err(e) => {
                    return Err(e);
                },
            };
            let ghost before = store@;
            let ghost rv = record@;
            match store.restore(record) {
                Ok(()) => {},
                Err(e) => {
                    proof {
                        let rest = s.subrange(next as int, s.len() as int);
                        if let Some(u) = parse_records(rest) {
                            assert(parse_records(t) == Some(seq![rv] + u));
                        }
                    }
                    return Err(e);
                },
            }
            proof {
                let rest = s.subrange(next as int, s.len() as int);
                if let Some(u) = parse_records(rest) {
                    assert(before + (seq![rv] + u) =~= store@ + u);
                }
            }
            pos = next;
        }
        assert(s.subrange(pos as int, s.len() as int) =~= Seq::<u8>::empty());
        assert(store@ + Seq::<MasterKeyView>::empty() =~= store@);
        Ok(store)
    }

    /// The record with identity `id`, if there is one.
    pub fn read(&self, id: u64) -> (r: Option<MasterKey>)
        requires
            self.wf(),
        ensures
            r matches Some(m) ==> m.id == id && self@.contains(m@),
            r is None <==> !has_id(self@, id),
    {
        match self.position_of(id) {
            Some(i) => Some(self.records[i].snapshot()),
            None => None,
        }
    }

    /// The active record, if there is one.
    pub fn read_current_active(&self) -> (r: Option<MasterKey>)
        requires
            self.wf(),
        ensures
            r matches Some(m) ==> m.is_active && self@.contains(m@),
            r is None <==> !has_active(self@),
    {
        match self.active_position() {
            Some(i) => Some(self.records[i].snapshot()),
            None => None,
        }
    }

    /// Sets the expiry and the active flag of the record `id`, leaving all else as it was.
    /// An absent record gives `MasterKeyNotFound`; activating a record while another one
    /// is active is refused.
    pub fn update_metadata(&mut self, id: u64, expires_at: i64, is_active: bool) -> (r: Result<
        (),
        Error,
    >)
        requires
            old(self).wf(),
        ensures
            final(self).wf(),
            !has_id(old(self)@, id) ==> (r matches Err(e) && e.kind == ErrorKind::MasterKeyNotFound),
            r is Ok ==> exists|i: int|
                0 <= i < old(self)@.len() && old(self)@[i].id == id && final(self)@ == old(
                    self,
                )@.update(
                    i,
                    MasterKeyView { expires_at, is_active, ..old(self)@[i] },
                ),
            r is Err ==> final(self)@ == old(self)@,
            final(self).identities_exhausted() == old(self).identities_exhausted(),
            has_id(old(self)@, id) && !is_active ==> r is Ok,
            has_id(old(self)@, id) && is_active ==> (r is Err <==> exists|j: int|
                0 <= j < old(self)@.len() && #[trigger] old(self)@[j].is_active && old(self)@[j].id
                    != id),
            has_id(old(self)@, id) && r is Err ==> (r matches Err(e) && e.kind == ErrorKind::Store),
    {
        let i = match self.position_of(id) {
            Some(i) => i,
            None => {
                return Err(Error::new(ErrorKind::MasterKeyNotFound, "master_key_not_found"));
            },
        };
        if is_active {
            if let Some(j) = self.active_position() {
                if j != i {
                    return Err(Error::new(ErrorKind::Store, "another master key is active"));
                }
            }
        }
        let ghost before = self@;
        self.records[i].expires_at = expires_at;
        self.records[i].is_active = is_active;
        assert(self@ =~= before.update(
            i as int,
            MasterKeyView { expires_at, is_active, ..before[i as int] },
        ));
        assert forall|a: int, b: int|
            0 <= a < self@.len() && 0 <= b < self@.len() && #[trigger] self@[a].is_active
                && #[trigger] self@[b].is_active implies a == b by {
            if a != b && (a == i || b == i) {
                let k = if a == i { b } else { a };
                assert(before[k].is_active);
            }
        }
        assert forall|a: int, b: int|
            0 <= a < self@.len() && 0 <= b < self@.len() && #[trigger] self@[a].id
                == #[trigger] self@[b].id implies a == b by {
            assert(before[a].id == self@[a].id);
            assert(before[b].id == self@[b].id);
        }
        Ok(())
    }
}

} // verus!
