//! Versioned, append-only storage of key material.
//!
//! Each key id owns one record: the current material, its metadata, and the
//! append-only history of every version ever stored.  The three live in one
//! structure behind one consistency boundary, so the invariant "metadata
//! version equals the latest history entry" cannot tear; callers that share
//! a store across threads serialize access around the whole store.
//!
//! Versions start at 1 on creation and increase by exactly one per
//! successful update, and every version remains retrievable until the whole
//! key is deleted.  Material whose declared entropy score falls below the
//! store's admission threshold is refused outright; a rejected attempt
//! leaves the store unchanged.  Storing an id that already exists is
//! refused (`KeyExists`) rather than silently overwriting a live history.

use vstd::prelude::*;
use crate::errors::KmsError;
use crate::config::MIN_ENTROPY_MILLIBITS;
use crate::time::now_timestamp;

verus! {

/// The role a key plays in the signing service.
#[derive(Clone, Copy, Debug)]
pub enum KeyType {
    Primary,
    Secondary,
    Backup,
}

/// Current metadata of one key id.
#[derive(Debug)]
pub struct KeyMetadata {
    pub key_type: KeyType,
    /// Unix timestamp of creation.
    pub created_at: i64,
    /// Unix timestamp of the most recent successful update, if any.
    pub last_rotated: Option<i64>,
    /// The highest version present in the key's history; versions start at 1.
    pub version: u32,
    /// Declared entropy score of the current material, in millibits/byte.
    pub entropy_score: u32,
    /// Who performed the last update (or the creation).
    pub rotated_by: String,
}

/// The mathematical value of a `KeyMetadata`.
pub ghost struct KeyMetadataV {
    pub key_type: KeyType,
    pub created_at: int,
    pub last_rotated: Option<int>,
    pub version: int,
    pub entropy_score: int,
    pub rotated_by: Seq<char>,
}

impl View for KeyMetadata {
    type V = KeyMetadataV;

    open spec fn view(&self) -> KeyMetadataV {
        KeyMetadataV {
            key_type: self.key_type,
            created_at: self.created_at as int,
            last_rotated: match self.last_rotated {
                Some(t) => Some(t as int),
                None => None,
            },
            version: self.version as int,
            entropy_score: self.entropy_score as int,
            rotated_by: self.rotated_by@,
        }
    }
}

impl Clone for KeyMetadata {
    fn clone(&self) -> (r: Self)
        ensures
            r == *self,
    {
        KeyMetadata {
            key_type: self.key_type,
            created_at: self.created_at,
            last_rotated: self.last_rotated,
            version: self.version,
            entropy_score: self.entropy_score,
            rotated_by: self.rotated_by.clone(),
        }
    }
}

/// One key id's full state: current material, metadata, version history.
struct KeyRecord {
    id: String,
    material: Vec<u8>,
    meta: KeyMetadata,
    history: Vec<Vec<u8>>,
}

/// The mathematical value of one key record: the current material, the
/// metadata, and the history where index `v - 1` holds version `v`.
pub ghost struct KeyRecordV {
    pub material: Seq<u8>,
    pub meta: KeyMetadataV,
    pub history: Seq<Seq<u8>>,
}

spec fn rec_view(r: KeyRecord) -> KeyRecordV {
    KeyRecordV {
        material: r.material@,
        meta: r.meta@,
        history: r.history@.map_values(|v: Vec<u8>| v@),
    }
}

/// A record is well formed when its version count matches its history, the
/// history is never empty, and the current material is the latest version.
pub open spec fn record_wf(r: KeyRecordV) -> bool {
    &&& 1 <= r.meta.version <= u32::MAX
    &&& r.meta.version == r.history.len()
    &&& r.material == r.history.last()
}

spec fn ids_distinct(rs: Seq<KeyRecord>) -> bool {
    forall|i: int, j: int| 0 <= i < j < rs.len() ==> rs[i].id@ != rs[j].id@
}

spec fn map_of(rs: Seq<KeyRecord>) -> Map<Seq<char>, KeyRecordV>
    decreases rs.len(),
{
    if rs.len() == 0 {
        Map::empty()
    } else {
        map_of(rs.drop_last()).insert(rs.last().id@, rec_view(rs.last()))
    }
}

proof fn lemma_map_of_contains(rs: Seq<KeyRecord>, k: Seq<char>)
    ensures
        map_of(rs).contains_key(k) <==> exists|i: int| 0 <= i < rs.len() && rs[i].id@ == k,
    decreases rs.len(),
{
    if rs.len() > 0 {
        let dl = rs.drop_last();
        lemma_map_of_contains(dl, k);
        if rs.last().id@ == k {
            assert(rs[rs.len() - 1].id@ == k);
        } else {
            if map_of(rs).contains_key(k) {
                let i = choose|i: int| 0 <= i < dl.len() && dl[i].id@ == k;
                assert(rs[i].id@ == k);
            }
            if exists|i: int| 0 <= i < rs.len() && rs[i].id@ == k {
                let i = choose|i: int| 0 <= i < rs.len() && rs[i].id@ == k;
                assert(dl[i].id@ == k);
            }
        }
    }
}

proof fn lemma_map_of_index(rs: Seq<KeyRecord>, i: int)
    requires
        ids_distinct(rs),
        0 <= i < rs.len(),
    ensures
        map_of(rs).contains_key(rs[i].id@),
        map_of(rs)[rs[i].id@] == rec_view(rs[i]),
    decreases rs.len(),
{
    let dl = rs.drop_last();
    if i == rs.len() - 1 {
    } else {
        assert(rs[rs.len() - 1].id@ != rs[i].id@);
        lemma_map_of_index(dl, i);
    }
}

proof fn lemma_map_of_push(rs: Seq<KeyRecord>, r: KeyRecord)
    ensures
        map_of(rs.push(r)) == map_of(rs).insert(r.id@, rec_view(r)),
{
    assert(rs.push(r).drop_last() =~= rs);
}

proof fn lemma_map_of_update(rs: Seq<KeyRecord>, i: int, r: KeyRecord)
    requires
        ids_distinct(rs),
        0 <= i < rs.len(),
        r.id@ == rs[i].id@,
    ensures
        map_of(rs.update(i, r)) == map_of(rs).insert(r.id@, rec_view(r)),
    decreases rs.len(),
{
    let dl = rs.drop_last();
    let k = r.id@;
    if i == rs.len() - 1 {
        assert(rs.update(i, r).drop_last() =~= dl);
        assert(rs.update(i, r).last() == r);
        assert(map_of(dl).insert(k, rec_view(rs.last())).insert(k, rec_view(r)) =~= map_of(
            dl,
        ).insert(k, rec_view(r)));
    } else {
        assert(rs.update(i, r).drop_last() =~= dl.update(i, r));
        assert(rs.update(i, r).last() == rs.last());
        lemma_map_of_update(dl, i, r);
        assert(rs[rs.len() - 1].id@ != rs[i].id@);
        assert(map_of(dl).insert(k, rec_view(r)).insert(rs.last().id@, rec_view(rs.last())) =~=
            map_of(dl).insert(rs.last().id@, rec_view(rs.last())).insert(k, rec_view(r)));
    }
}

proof fn lemma_map_of_remove(rs: Seq<KeyRecord>, i: int)
    requires
        ids_distinct(rs),
        0 <= i < rs.len(),
    ensures
        map_of(rs.remove(i)) == map_of(rs).remove(rs[i].id@),
    decreases rs.len(),
{
    let dl = rs.drop_last();
    let k = rs[i].id@;
    if i == rs.len() - 1 {
        assert(rs.remove(i) =~= dl);
        lemma_map_of_contains(dl, k);
        assert(forall|j: int| 0 <= j < dl.len() ==> dl[j].id@ != k);
        assert(map_of(dl) =~= map_of(dl).insert(k, rec_view(rs.last())).remove(k));
    } else {
        assert(rs.remove(i).drop_last() =~= dl.remove(i));
        assert(rs.remove(i).last() == rs.last());
        lemma_map_of_remove(dl, i);
        assert(rs[rs.len() - 1].id@ != rs[i].id@);
        assert(map_of(dl).remove(k).insert(rs.last().id@, rec_view(rs.last())) =~= map_of(
            dl,
        ).insert(rs.last().id@, rec_view(rs.last())).remove(k));
    }
}

/// Versioned key storage with an entropy-gated admission policy.
pub struct KeyStore {
    records: Vec<KeyRecord>,
    min_entropy_millibits: u32,
}

impl View for KeyStore {
    type V = Map<Seq<char>, KeyRecordV>;

    closed spec fn view(&self) -> Map<Seq<char>, KeyRecordV> {
        map_of(self.records@)
    }
}

impl KeyStore {
    /// The store's admission threshold, in millibits of entropy per byte.
    pub closed spec fn spec_min_entropy(self) -> u32 {
        self.min_entropy_millibits
    }

    /// Every record is well formed, ids are unique, and every admitted
    /// score is on the 0..8000 millibit scale and at or above the
    /// admission threshold.
    pub closed spec fn wf(self) -> bool {
        &&& ids_distinct(self.records@)
        &&& forall|k: Seq<char>| #[trigger] self@.contains_key(k) ==> record_wf(self@[k])
            && self@[k].meta.entropy_score >= self.min_entropy_millibits as int
            && self@[k].meta.entropy_score <= 8000
    }

    /// Every record of a well-formed store is itself well formed and meets
    /// the admission threshold: below-threshold material is never admitted.
    pub proof fn lemma_wf_record(self, k: Seq<char>)
        requires
            self.wf(),
            self@.contains_key(k),
        ensures
            record_wf(self@[k]),
            self@[k].meta.entropy_score >= self.spec_min_entropy() as int,
            self@[k].meta.entropy_score <= 8000,
    {
    }

    /// An empty store with the default 7.5 bits/byte admission threshold.
    pub fn new() -> (r: KeyStore)
        ensures
            r.wf(),
            r@ == Map::<Seq<char>, KeyRecordV>::empty(),
            r.spec_min_entropy() == MIN_ENTROPY_MILLIBITS,
    {
        KeyStore { records: Vec::new(), min_entropy_millibits: MIN_ENTROPY_MILLIBITS }
    }

    /// An empty store with a custom admission threshold.
    pub fn with_min_entropy(min_entropy_millibits: u32) -> (r: KeyStore)
        ensures
            r.wf(),
            r@ == Map::<Seq<char>, KeyRecordV>::empty(),
            r.spec_min_entropy() == min_entropy_millibits,
    {
        KeyStore { records: Vec::new(), min_entropy_millibits }
    }

    /// The admission threshold, in millibits of entropy per byte.
    pub fn min_entropy(&self) -> (r: u32)
        ensures
            r == self.spec_min_entropy(),
    {
        self.min_entropy_millibits
    }

    fn find_index(&self, key: &String) -> (r: Option<usize>)
        ensures
            match r {
                Some(i) => i < self.records@.len() && self.records@[i as int].id@ == key@,
                None => forall|j: int| 0 <= j < self.records@.len() ==> self.records@[j].id@
                    != key@,
            },
    {
        let mut i: usize = 0;
        while i < self.records.len()
            invariant
                i <= self.records@.len(),
                forall|j: int| 0 <= j < i ==> self.records@[j].id@ != key@,
            decreases self.records@.len() - i,
        {
            if self.records[i].id == *key {
                return Some(i);
            }
            i = i + 1;
        }
        None
    }

    /// A freshly created record: version 1, a one-entry history holding the
    /// given material, no rotation yet, and a non-negative creation stamp.
    pub open spec fn fresh_record(
        rec: KeyRecordV,
        key_data: Seq<u8>,
        key_type: KeyType,
        entropy_score: int,
        user: Seq<char>,
    ) -> bool {
        &&& rec.material == key_data
        &&& rec.history == seq![key_data]
        &&& rec.meta.version == 1
        &&& rec.meta.key_type == key_type
        &&& rec.meta.entropy_score == entropy_score
        &&& rec.meta.last_rotated is None
        &&& rec.meta.rotated_by == user
        &&& rec.meta.created_at >= 0
    }

    /// The map after creating key `k` at time `now`: a fresh record at
    /// version 1 holding exactly the given material.
    pub open spec fn created_map(
        m: Map<Seq<char>, KeyRecordV>,
        k: Seq<char>,
        key_data: Seq<u8>,
        key_type: KeyType,
        entropy_score: int,
        user: Seq<char>,
        now: int,
    ) -> Map<Seq<char>, KeyRecordV> {
        m.insert(
            k,
            KeyRecordV {
                material: key_data,
                meta: KeyMetadataV {
                    key_type,
                    created_at: now,
                    last_rotated: None,
                    version: 1,
                    entropy_score,
                    rotated_by: user,
                },
                history: seq![key_data],
            },
        )
    }

    /// Create a key at version 1, stamped with creation time `now`.
    ///
    /// Fails `InsufficientEntropy` when the declared score is below the
    /// admission threshold, and `KeyExists` when the id already holds a
    /// live record; a failed call leaves the store unchanged.
    pub fn store_key_at(
        &mut self,
        key_id: String,
        key_data: Vec<u8>,
        key_type: KeyType,
        entropy_score: u32,
        user: String,
        now: i64,
    ) -> (r: Result<(), KmsError>)
        requires
            old(self).wf(),
            entropy_score <= 8000,
            now >= 0,
        ensures
            final(self).wf(),
            final(self).spec_min_entropy() == old(self).spec_min_entropy(),
            r matches Err(e) ==> final(self)@ == old(self)@,
            (r == Err::<(), KmsError>(KmsError::InsufficientEntropy(entropy_score))) <==> (
            entropy_score < old(self).spec_min_entropy()),
            (r == Err::<(), KmsError>(KmsError::KeyExists)) <==> (entropy_score >= old(
                self,
            ).spec_min_entropy() && old(self)@.contains_key(key_id@)),
            (r is Ok) <==> (entropy_score >= old(self).spec_min_entropy() && !old(
            self,
            )@.contains_key(key_id@)),
            r is Ok ==> final(self)@ == Self::created_map(
                old(self)@,
                key_id@,
                key_data@,
                key_type,
                entropy_score as int,
                user@,
                now as int,
            ),
    {
        if entropy_score < self.min_entropy_millibits {
            return Err(KmsError::InsufficientEntropy(entropy_score));
        }
        proof {
            lemma_map_of_contains(self.records@, key_id@);
        }
        match self.find_index(&key_id) {
            Some(_) => {
                proof {
                    lemma_map_of_contains(self.records@, key_id@);
                }
                Err(KmsError::KeyExists)
            },
            None => {
                let material = clone_bytes(&key_data);
                let meta = KeyMetadata {
                    key_type,
                    created_at: now,
                    last_rotated: None,
                    version: 1,
                    entropy_score,
                    rotated_by: user,
                };
                let mut history: Vec<Vec<u8>> = Vec::new();
                history.push(key_data);
                let ghost k = key_id@;
                let rec = KeyRecord { id: key_id, material, meta, history };
                proof {
                    lemma_map_of_push(self.records@, rec);
                    assert(rec_view(rec).history =~= seq![rec.material@]);
                }
                self.records.push(rec);
                proof {
                    assert(final(self)@ == old(self)@.insert(k, rec_view(rec)));
                    assert forall|k2: Seq<char>| #[trigger] final(self)@.contains_key(k2) implies
                        record_wf(final(self)@[k2]) && final(self)@[k2].meta.entropy_score
                        >= final(self).min_entropy_millibits as int && final(self)@[k2].meta.entropy_score <= 8000 by {
                        if k2 != k {
                            assert(old(self)@.contains_key(k2));
                        }
                    }
                }
                Ok(())
            },
        }
    }

    /// Create a key at version 1, stamped with the current time.
    ///
    /// Same gates and effects as `store_key_at`; the recorded creation
    /// time is whatever the clock returned.
    pub fn store_key(
        &mut self,
        key_id: String,
        key_data: Vec<u8>,
        key_type: KeyType,
        entropy_score: u32,
        user: String,
    ) -> (r: Result<(), KmsError>)
        requires
            old(self).wf(),
            entropy_score <= 8000,
        ensures
            final(self).wf(),
            final(self).spec_min_entropy() == old(self).spec_min_entropy(),
            r matches Err(e) ==> final(self)@ == old(self)@,
            (r == Err::<(), KmsError>(KmsError::InsufficientEntropy(entropy_score))) <==> (
            entropy_score < old(self).spec_min_entropy()),
            (r == Err::<(), KmsError>(KmsError::KeyExists)) <==> (entropy_score >= old(
                self,
            ).spec_min_entropy() && old(self)@.contains_key(key_id@)),
            (r is Ok) <==> (entropy_score >= old(self).spec_min_entropy() && !old(
            self,
            )@.contains_key(key_id@)),
            r is Ok ==> {
                &&& final(self)@.contains_key(key_id@)
                &&& Self::fresh_record(
                    final(self)@[key_id@],
                    key_data@,
                    key_type,
                    entropy_score as int,
                    user@,
                )
                &&& final(self)@.remove(key_id@) == old(self)@.remove(key_id@)
            },
    {
        let now = now_timestamp();
        let ghost k = key_id@;
        let ghost d = key_data@;
        let r = self.store_key_at(key_id, key_data, key_type, entropy_score, user, now);
        proof {
            if r is Ok {
                assert(final(self)@.remove(k) =~= old(self)@.remove(k));
            }
        }
        r
    }

    /// The map after a successful update of key `k`: the new material is
    /// appended to the history, the version steps by one, and the metadata
    /// records the rotation time, score and actor.
    pub open spec fn updated_map(
        m: Map<Seq<char>, KeyRecordV>,
        k: Seq<char>,
        key_data: Seq<u8>,
        entropy_score: int,
        user: Seq<char>,
        now: int,
    ) -> Map<Seq<char>, KeyRecordV>
        recommends
            m.contains_key(k),
    {
        m.insert(
            k,
            KeyRecordV {
                material: key_data,
                meta: KeyMetadataV {
                    key_type: m[k].meta.key_type,
                    created_at: m[k].meta.created_at,
                    last_rotated: Some(now),
                    version: m[k].meta.version + 1,
                    entropy_score,
                    rotated_by: user,
                },
                history: m[k].history.push(key_data),
            },
        )
    }

    /// Replace a key's current material, recording the update at time `now`.
    ///
    /// Fails `NotFound` for an unknown id, `InsufficientEntropy` below the
    /// admission threshold, and `VersionOverflow` when the version counter
    /// is exhausted, in that order; a failed call leaves the store
    /// unchanged.  On success the new version, the history append, the
    /// current material and the metadata update commit as one unit.
    pub fn update_key_at(
        &mut self,
        key_id: &str,
        new_key_data: Vec<u8>,
        entropy_score: u32,
        user: String,
        now: i64,
    ) -> (r: Result<(), KmsError>)
        requires
            old(self).wf(),
            entropy_score <= 8000,
            now >= 0,
        ensures
            final(self).wf(),
            final(self).spec_min_entropy() == old(self).spec_min_entropy(),
            r matches Err(e) ==> final(self)@ == old(self)@,
            (r == Err::<(), KmsError>(KmsError::NotFound)) <==> !old(self)@.contains_key(key_id@),
            (r == Err::<(), KmsError>(KmsError::InsufficientEntropy(entropy_score))) <==> (old(
                self,
            )@.contains_key(key_id@) && entropy_score < old(self).spec_min_entropy()),
            (r == Err::<(), KmsError>(KmsError::VersionOverflow)) <==> (old(
                self,
            )@.contains_key(key_id@) && entropy_score >= old(self).spec_min_entropy() && old(
                self,
            )@[key_id@].meta.version == u32::MAX),
            (r is Ok) <==> (old(self)@.contains_key(key_id@) && entropy_score >= old(
                self,
            ).spec_min_entropy() && old(self)@[key_id@].meta.version < u32::MAX),
            r is Ok ==> final(self)@ == Self::updated_map(
                old(self)@,
                key_id@,
                new_key_data@,
                entropy_score as int,
                user@,
                now as int,
            ),
    {
        let key = key_id.to_owned();
        proof {
            lemma_map_of_contains(self.records@, key_id@);
        }
        match self.find_index(&key) {
            None => Err(KmsError::NotFound),
            Some(i) => {
                proof {
                    lemma_map_of_index(self.records@, i as int);
                }
                if entropy_score < self.min_entropy_millibits {
                    return Err(KmsError::InsufficientEntropy(entropy_score));
                }
                if self.records[i].meta.version == u32::MAX {
                    return Err(KmsError::VersionOverflow);
                }
                let ghost rs0 = self.records@;
                let ghost k = key_id@;
                let rec = self.records.remove(i);
                let material = clone_bytes(&new_key_data);
                let new_meta = KeyMetadata {
                    key_type: rec.meta.key_type,
                    created_at: rec.meta.created_at,
                    last_rotated: Some(now),
                    version: rec.meta.version + 1,
                    entropy_score,
                    rotated_by: user,
                };
                let mut history = rec.history;
                history.push(new_key_data);
                let new_rec = KeyRecord { id: rec.id, material, meta: new_meta, history };
                proof {
                    assert(rec_view(new_rec).history =~= rec_view(rs0[i as int]).history.push(
                        new_rec.material@,
                    ));
                }
                self.records.insert(i, new_rec);
                proof {
                    assert(self.records@ =~= rs0.update(i as int, new_rec));
                    lemma_map_of_update(rs0, i as int, new_rec);
                    assert(final(self)@ == Self::updated_map(
                        old(self)@,
                        k,
                        new_rec.material@,
                        entropy_score as int,
                        new_rec.meta.rotated_by@,
                        now as int,
                    ));
                    assert forall|k2: Seq<char>| #[trigger] final(self)@.contains_key(k2) implies
                        record_wf(final(self)@[k2]) && final(self)@[k2].meta.entropy_score
                        >= final(self).min_entropy_millibits as int && final(self)@[k2].meta.entropy_score <= 8000 by {
                        if k2 != k {
                            assert(old(self)@.contains_key(k2));
                        }
                    }
                }
                Ok(())
            },
        }
    }

    /// Replace a key's current material, stamped with the current time.
    ///
    /// Same gates and effects as `update_key_at`; the recorded rotation
    /// time is whatever the clock returned.
    pub fn update_key(
        &mut self,
        key_id: &str,
        new_key_data: Vec<u8>,
        entropy_score: u32,
        user: String,
    ) -> (r: Result<(), KmsError>)
        requires
            old(self).wf(),
            entropy_score <= 8000,
        ensures
            final(self).wf(),
            final(self).spec_min_entropy() == old(self).spec_min_entropy(),
            r matches Err(e) ==> final(self)@ == old(self)@,
            (r == Err::<(), KmsError>(KmsError::NotFound)) <==> !old(self)@.contains_key(key_id@),
            (r == Err::<(), KmsError>(KmsError::InsufficientEntropy(entropy_score))) <==> (old(
                self,
            )@.contains_key(key_id@) && entropy_score < old(self).spec_min_entropy()),
            (r == Err::<(), KmsError>(KmsError::VersionOverflow)) <==> (old(
                self,
            )@.contains_key(key_id@) && entropy_score >= old(self).spec_min_entropy() && old(
                self,
            )@[key_id@].meta.version == u32::MAX),
            (r is Ok) <==> (old(self)@.contains_key(key_id@) && entropy_score >= old(
                self,
            ).spec_min_entropy() && old(self)@[key_id@].meta.version < u32::MAX),
            r is Ok ==> exists|t: int|
                t >= 0 && final(self)@ == Self::updated_map(
                    old(self)@,
                    key_id@,
                    new_key_data@,
                    entropy_score as int,
                    user@,
                    t,
                ),
    {
        let now = now_timestamp();
        let r = self.update_key_at(key_id, new_key_data, entropy_score, user, now);
        proof {
            if r is Ok {
                assert(final(self)@ == Self::updated_map(
                    old(self)@,
                    key_id@,
                    new_key_data@,
                    entropy_score as int,
                    user@,
                    now as int,
                ));
            }
        }
        r
    }

    /// The current material of a key, or `None` for an unknown id.
    pub fn get_key(&self, key_id: &str) -> (r: Option<Vec<u8>>)
        requires
            self.wf(),
        ensures
            match r {
                Some(v) => self@.contains_key(key_id@) && v@ == self@[key_id@].material,
                None => !self@.contains_key(key_id@),
            },
    {
        let key = key_id.to_owned();
        proof {
            lemma_map_of_contains(self.records@, key_id@);
        }
        match self.find_index(&key) {
            None => None,
            Some(i) => {
                proof {
                    lemma_map_of_index(self.records@, i as int);
                }
                Some(clone_bytes(&self.records[i].material))
            },
        }
    }

    /// The material stored at a historical version of a key, or `None` when
    /// the id is unknown or the version was never written.
    pub fn get_key_version(&self, key_id: &str, version: u32) -> (r: Option<Vec<u8>>)
        requires
            self.wf(),
        ensures
            (r is Some) <==> (self@.contains_key(key_id@) && 1 <= version as int
                <= self@[key_id@].history.len()),
            r matches Some(v) ==> v@ == self@[key_id@].history[version as int - 1],
    {
        let key = key_id.to_owned();
        proof {
            lemma_map_of_contains(self.records@, key_id@);
        }
        match self.find_index(&key) {
            None => None,
            Some(i) => {
                proof {
                    lemma_map_of_index(self.records@, i as int);
                }
                let rec = &self.records[i];
                if version >= 1 && (version as usize) <= rec.history.len() {
                    Some(clone_bytes(&rec.history[(version - 1) as usize]))
                } else {
                    None
                }
            },
        }
    }

    /// Purge a key's current material, metadata and entire version history;
    /// returns whether the id previously existed.
    pub fn delete_key(&mut self, key_id: &str) -> (r: bool)
        requires
            old(self).wf(),
        ensures
            final(self).wf(),
            final(self).spec_min_entropy() == old(self).spec_min_entropy(),
            r == old(self)@.contains_key(key_id@),
            final(self)@ == old(self)@.remove(key_id@),
    {
        let key = key_id.to_owned();
        proof {
            lemma_map_of_contains(self.records@, key_id@);
        }
        match self.find_index(&key) {
            None => {
                proof {
                    assert(final(self)@ =~= old(self)@.remove(key_id@));
                }
                false
            },
            Some(i) => {
                let ghost rs0 = self.records@;
                proof {
                    lemma_map_of_remove(rs0, i as int);
                }
                let _ = self.records.remove(i);
                proof {
                    assert forall|k2: Seq<char>| #[trigger] final(self)@.contains_key(k2) implies
                        record_wf(final(self)@[k2]) && final(self)@[k2].meta.entropy_score
                        >= final(self).min_entropy_millibits as int by {
                        assert(old(self)@.contains_key(k2));
                    }
                }
                true
            },
        }
    }

    /// A point-in-time snapshot of every (id, metadata) pair in the store.
    pub fn list_keys(&self) -> (r: Vec<(String, KeyMetadata)>)
        requires
            self.wf(),
        ensures
            forall|i: int| 0 <= i < r@.len() ==> self@.contains_key(#[trigger] r@[i].0@)
                && r@[i].1@ == self@[r@[i].0@].meta,
            forall|k: Seq<char>| #[trigger] self@.contains_key(k) ==> exists|i: int|
                0 <= i < r@.len() && r@[i].0@ == k,
            forall|i: int, j: int| 0 <= i < j < r@.len() ==> r@[i].0@ != r@[j].0@,
    {
        let mut out: Vec<(String, KeyMetadata)> = Vec::new();
        let mut i: usize = 0;
        while i < self.records.len()
            invariant
                self.wf(),
                i <= self.records@.len(),
                out@.len() == i,
                forall|j: int| 0 <= j < i ==> out@[j].0@ == self.records@[j].id@ && out@[j].1@
                    == rec_view(self.records@[j]).meta,
            decreases self.records@.len() - i,
        {
            let rec = &self.records[i];
            out.push((rec.id.clone(), rec.meta.clone()));
            i = i + 1;
        }
        proof {
            assert forall|i2: int| 0 <= i2 < out@.len() implies self@.contains_key(
                #[trigger] out@[i2].0@,
            ) && out@[i2].1@ == self@[out@[i2].0@].meta by {
                lemma_map_of_index(self.records@, i2);
            }
            assert forall|k: Seq<char>| #[trigger] self@.contains_key(k) implies exists|i2: int|
                0 <= i2 < out@.len() && out@[i2].0@ == k by {
                lemma_map_of_contains(self.records@, k);
                let j = choose|j: int| 0 <= j < self.records@.len() && self.records@[j].id@ == k;
                assert(out@[j].0@ == k);
            }
        }
        out
    }
}

/// Version monotonicity: a key is created at version 1, and each
/// successful update steps its version by exactly one, so the versions of
/// successive successful updates strictly increase.
pub proof fn lemma_version_monotonic(
    m: Map<Seq<char>, KeyRecordV>,
    k: Seq<char>,
    data1: Seq<u8>,
    entropy1: int,
    user1: Seq<char>,
    now1: int,
    data2: Seq<u8>,
    entropy2: int,
    user2: Seq<char>,
    now2: int,
)
    requires
        m.contains_key(k),
    ensures
        KeyStore::updated_map(m, k, data1, entropy1, user1, now1)[k].meta.version == m[k].meta.version
            + 1,
        KeyStore::updated_map(
            KeyStore::updated_map(m, k, data1, entropy1, user1, now1),
            k,
            data2,
            entropy2,
            user2,
            now2,
        )[k].meta.version == m[k].meta.version + 2,
{
}

/// Version retention: a successful update appends to the key's history and
/// changes nothing below the new version, so every version ever stored for
/// a key remains retrievable, with exactly its original bytes, until the
/// whole key is deleted.  Other keys' records are untouched.
pub proof fn lemma_version_retention(
    m: Map<Seq<char>, KeyRecordV>,
    k: Seq<char>,
    data: Seq<u8>,
    entropy: int,
    user: Seq<char>,
    now: int,
)
    requires
        m.contains_key(k),
    ensures
        KeyStore::updated_map(m, k, data, entropy, user, now)[k].history.len() == m[k].history.len()
            + 1,
        forall|v: int|
            0 <= v < m[k].history.len() ==> KeyStore::updated_map(
                m,
                k,
                data,
                entropy,
                user,
                now,
            )[k].history[v] == m[k].history[v],
        KeyStore::updated_map(m, k, data, entropy, user, now)[k].history.last() == data,
        forall|k2: Seq<char>|
            k2 != k && #[trigger] m.contains_key(k2) ==> KeyStore::updated_map(
                m,
                k,
                data,
                entropy,
                user,
                now,
            )[k2] == m[k2],
{
}

/// A verified byte-for-byte copy of a byte vector.
pub fn clone_bytes(v: &Vec<u8>) -> (r: Vec<u8>)
    ensures
        r@ == v@,
{
    let r = v.clone();
    proof {
        assert(r@ =~= v@);
    }
    r
}

} // verus!
