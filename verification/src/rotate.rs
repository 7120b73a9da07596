//! Policy-gated key rotation.
//!
//! `rotate_key` consults the policy gate, draws fresh random material,
//! scores it, and on success replaces the key's material through the store
//! and records the outcome in the audit trail.  Policy and validation
//! failures are decided and returned without any mutation of the store or
//! of the rotation timestamps; every outcome, success or failure, appends
//! exactly one `KeyRotation` audit event.
//!
//! Concurrent deployments serialize whole calls around the rotator; the
//! eligibility check and the update then cannot interleave, so version
//! numbers stay unique and monotonic.

use vstd::prelude::*;
use crate::store::KeyStore;
use crate::audit::{AuditLog, AuditEventType, AuditEventV};
use crate::errors::KmsError;
use crate::config::KmsConfig;
use crate::entropy::{entropy_millibits, entropy_millibits_spec};
use crate::random::secure_random_bytes;
use crate::time::now_timestamp;

verus! {

/// Declarative rotation policy, consulted but not owned by the rotator.
#[derive(Clone, Copy, Debug)]
pub struct RotationPolicy {
    pub max_age_days: u32,
    pub force_rotation: bool,
    pub require_backup: bool,
}

/// The outcome of a successful rotation.
#[derive(Debug)]
pub struct RotationResult {
    pub key_id: String,
    /// Unix timestamp at which the rotation was performed.
    pub rotation_time: i64,
    pub success: bool,
    /// Measured entropy of the new material, in millibits/byte.
    pub entropy_score: u32,
    pub rotated_by: String,
    /// The key's version after the rotation.
    pub new_version: u32,
}

/// Whole days elapsed from `last` to `now`; a clock that went backwards
/// counts as no time elapsed.
pub open spec fn spec_days_since(now: int, last: int) -> int {
    if now >= last {
        (now - last) / 86400
    } else {
        0
    }
}

/// The audit event that one rotation attempt appends.
pub open spec fn rotation_event(
    k: Seq<char>,
    user: Seq<char>,
    now: int,
    success: bool,
) -> AuditEventV {
    AuditEventV {
        event_type: AuditEventType::KeyRotation,
        key_id: k,
        user,
        timestamp: now,
        success,
        details: None,
    }
}

/// Audit completeness: one successful rotation appends exactly one
/// `KeyRotation` event to the rotated key's history view and leaves the
/// failed-attempt view unchanged; one failed attempt appends exactly one
/// event to both that key's history view and the failed-attempt view.
pub proof fn lemma_rotation_audit_completeness(
    log: Seq<AuditEventV>,
    k: Seq<char>,
    user: Seq<char>,
    now: int,
)
    ensures
        crate::audit::events_for(log.push(rotation_event(k, user, now, true)), k)
            == crate::audit::events_for(log, k).push(rotation_event(k, user, now, true)),
        crate::audit::failed_events(log.push(rotation_event(k, user, now, true)))
            == crate::audit::failed_events(log),
        crate::audit::events_for(log.push(rotation_event(k, user, now, false)), k)
            == crate::audit::events_for(log, k).push(rotation_event(k, user, now, false)),
        crate::audit::failed_events(log.push(rotation_event(k, user, now, false)))
            == crate::audit::failed_events(log).push(rotation_event(k, user, now, false)),
{
    crate::audit::lemma_history_after_record(log, rotation_event(k, user, now, true), k);
    crate::audit::lemma_failed_after_record(log, rotation_event(k, user, now, true));
    crate::audit::lemma_history_after_record(log, rotation_event(k, user, now, false), k);
    crate::audit::lemma_failed_after_record(log, rotation_event(k, user, now, false));
}

spec fn tm_map_of(es: Seq<(String, i64)>) -> Map<Seq<char>, int>
    decreases es.len(),
{
    if es.len() == 0 {
        Map::empty()
    } else {
        tm_map_of(es.drop_last()).insert(es.last().0@, es.last().1 as int)
    }
}

spec fn tm_ids_distinct(es: Seq<(String, i64)>) -> bool {
    forall|i: int, j: int| 0 <= i < j < es.len() ==> es[i].0@ != es[j].0@
}

proof fn lemma_tm_contains(es: Seq<(String, i64)>, k: Seq<char>)
    ensures
        tm_map_of(es).contains_key(k) <==> exists|i: int| 0 <= i < es.len() && es[i].0@ == k,
    decreases es.len(),
{
    if es.len() > 0 {
        let dl = es.drop_last();
        lemma_tm_contains(dl, k);
        if es.last().0@ == k {
            assert(es[es.len() - 1].0@ == k);
        } else {
            if tm_map_of(es).contains_key(k) {
                let i = choose|i: int| 0 <= i < dl.len() && dl[i].0@ == k;
                assert(es[i].0@ == k);
            }
            if exists|i: int| 0 <= i < es.len() && es[i].0@ == k {
                let i = choose|i: int| 0 <= i < es.len() && es[i].0@ == k;
                assert(dl[i].0@ == k);
            }
        }
    }
}

proof fn lemma_tm_index(es: Seq<(String, i64)>, i: int)
    requires
        tm_ids_distinct(es),
        0 <= i < es.len(),
    ensures
        tm_map_of(es).contains_key(es[i].0@),
        tm_map_of(es)[es[i].0@] == es[i].1 as int,
    decreases es.len(),
{
    let dl = es.drop_last();
    if i == es.len() - 1 {
    } else {
        assert(es[es.len() - 1].0@ != es[i].0@);
        lemma_tm_index(dl, i);
    }
}

proof fn lemma_tm_push(es: Seq<(String, i64)>, e: (String, i64))
    ensures
        tm_map_of(es.push(e)) == tm_map_of(es).insert(e.0@, e.1 as int),
{
    assert(es.push(e).drop_last() =~= es);
}

proof fn lemma_tm_update(es: Seq<(String, i64)>, i: int, e: (String, i64))
    requires
        tm_ids_distinct(es),
        0 <= i < es.len(),
        e.0@ == es[i].0@,
    ensures
        tm_map_of(es.update(i, e)) == tm_map_of(es).insert(e.0@, e.1 as int),
    decreases es.len(),
{
    let dl = es.drop_last();
    let k = e.0@;
    if i == es.len() - 1 {
        assert(es.update(i, e).drop_last() =~= dl);
        assert(es.update(i, e).last() == e);
        assert(tm_map_of(dl).insert(k, es.last().1 as int).insert(k, e.1 as int) =~= tm_map_of(
            dl,
        ).insert(k, e.1 as int));
    } else {
        assert(es.update(i, e).drop_last() =~= dl.update(i, e));
        assert(es.update(i, e).last() == es.last());
        lemma_tm_update(dl, i, e);
        assert(es[es.len() - 1].0@ != es[i].0@);
        assert(tm_map_of(dl).insert(k, e.1 as int).insert(es.last().0@, es.last().1 as int) =~=
            tm_map_of(dl).insert(es.last().0@, es.last().1 as int).insert(k, e.1 as int));
    }
}

/// The rotation policy engine: owns the store it rotates, the last-rotation
/// timestamps, and the audit trail of every attempt.
pub struct KeyRotator {
    /// The store whose keys this rotator manages.
    pub store: KeyStore,
    /// Last recorded rotation time per key id; treat as internal state.
    pub last_rotation: Vec<(String, i64)>,
    /// The audit trail of every rotation attempt.
    pub audit: AuditLog,
    /// The policy knobs this rotator was built with.
    pub config: KmsConfig,
}

impl KeyRotator {
    /// The rotator's configuration.
    pub closed spec fn spec_config(self) -> KmsConfig {
        self.config
    }

    /// The last recorded rotation time of each key.
    pub closed spec fn last_rotation_map(self) -> Map<Seq<char>, int> {
        tm_map_of(self.last_rotation@)
    }

    /// The owned components are well formed, the configuration is usable,
    /// and every recorded rotation time is a sanitized (non-negative)
    /// timestamp.
    pub open spec fn wf(self) -> bool {
        &&& self.store.wf()
        &&& self.audit.wf()
        &&& self.spec_config().wf()
        &&& self.tm_wf()
    }

    /// The rotation-timestamp table is well formed: ids unique, times
    /// sanitized (non-negative).
    pub closed spec fn tm_wf(self) -> bool {
        &&& tm_ids_distinct(self.last_rotation@)
        &&& forall|i: int|
            0 <= i < self.last_rotation@.len() ==> (#[trigger] self.last_rotation@[i]).1 >= 0
    }

    /// The policy gate: a rotation of `k` at time `now` is allowed when
    /// forced, never rotated before, or past the policy interval.
    pub open spec fn rotation_due(self, k: Seq<char>, now: int, force: bool) -> bool {
        ||| force
        ||| !self.last_rotation_map().contains_key(k)
        ||| spec_days_since(now, self.last_rotation_map()[k])
            >= self.spec_config().rotation_interval_days
    }

    /// A rotator with the default policy over the given store.
    pub fn new(store: KeyStore) -> (r: KeyRotator)
        requires
            store.wf(),
        ensures
            r.wf(),
            r.store == store,
            r.last_rotation_map() == Map::<Seq<char>, int>::empty(),
            r.audit@ == Seq::<AuditEventV>::empty(),
            r.spec_config() == KmsConfig::spec_default(),
    {
        KeyRotator {
            store,
            last_rotation: Vec::new(),
            audit: AuditLog::new(),
            config: KmsConfig::default(),
        }
    }

    /// A rotator with a custom policy over the given store.
    pub fn with_config(store: KeyStore, config: KmsConfig) -> (r: KeyRotator)
        requires
            store.wf(),
            config.wf(),
        ensures
            r.wf(),
            r.store == store,
            r.last_rotation_map() == Map::<Seq<char>, int>::empty(),
            r.audit@ == Seq::<AuditEventV>::empty(),
            r.spec_config() == config,
    {
        KeyRotator { store, last_rotation: Vec::new(), audit: AuditLog::new(), config }
    }

    fn find_rotation_entry(&self, key: &String) -> (r: Option<usize>)
        ensures
            match r {
                Some(i) => i < self.last_rotation@.len() && self.last_rotation@[i as int].0@
                    == key@,
                None => forall|j: int|
                    0 <= j < self.last_rotation@.len() ==> self.last_rotation@[j].0@ != key@,
            },
    {
        let mut i: usize = 0;
        while i < self.last_rotation.len()
            invariant
                i <= self.last_rotation@.len(),
                forall|j: int| 0 <= j < i ==> self.last_rotation@[j].0@ != key@,
            decreases self.last_rotation@.len() - i,
        {
            if self.last_rotation[i].0 == *key {
                return Some(i);
            }
            i = i + 1;
        }
        None
    }

    fn set_last_rotation(&mut self, key: String, now: i64)
        requires
            old(self).tm_wf(),
            now >= 0,
        ensures
            final(self).tm_wf(),
            final(self).last_rotation_map() == old(self).last_rotation_map().insert(
                key@,
                now as int,
            ),
            final(self).store == old(self).store,
            final(self).audit == old(self).audit,
            final(self).config == old(self).config,
    {
        proof {
            lemma_tm_contains(self.last_rotation@, key@);
        }
        match self.find_rotation_entry(&key) {
            Some(i) => {
                let ghost es0 = self.last_rotation@;
                let _ = self.last_rotation.remove(i);
                self.last_rotation.insert(i, (key, now));
                proof {
                    assert(self.last_rotation@ =~= es0.update(
                        i as int,
                        (self.last_rotation@[i as int].0, now),
                    ));
                    lemma_tm_update(es0, i as int, self.last_rotation@[i as int]);
                }
            },
            None => {
                proof {
                    lemma_tm_push(self.last_rotation@, (key, now));
                }
                self.last_rotation.push((key, now));
            },
        }
    }

    /// The last recorded rotation time of a key, if it was ever rotated.
    pub fn check_rotation_status(&self, key_id: &str) -> (r: Option<i64>)
        requires
            self.wf(),
        ensures
            match r {
                Some(t) => self.last_rotation_map().contains_key(key_id@) && t as int
                    == self.last_rotation_map()[key_id@],
                None => !self.last_rotation_map().contains_key(key_id@),
            },
    {
        let key = key_id.to_owned();
        proof {
            lemma_tm_contains(self.last_rotation@, key_id@);
        }
        match self.find_rotation_entry(&key) {
            Some(i) => {
                proof {
                    lemma_tm_index(self.last_rotation@, i as int);
                }
                Some(self.last_rotation[i].1)
            },
            None => None,
        }
    }

    /// Rotate a key using the given timestamp and candidate material.
    ///
    /// The policy gate is consulted first (`RotationNotDue` carries the
    /// days remaining); then the material is scored and refused below the
    /// store's admission threshold; then the store update is attempted.
    /// Failures leave the store and the rotation timestamps unchanged.
    /// Every attempt appends exactly one `KeyRotation` audit event whose
    /// success flag matches the outcome.
    pub fn rotate_key_with(
        &mut self,
        key_id: &str,
        user: String,
        force: bool,
        now: i64,
        material: Vec<u8>,
    ) -> (r: Result<RotationResult, KmsError>)
        requires
            old(self).wf(),
            now >= 0,
            material@.len() < 0x1_0000_0000,
        ensures
            final(self).wf(),
            final(self).spec_config() == old(self).spec_config(),
            final(self).store.spec_min_entropy() == old(self).store.spec_min_entropy(),
            // the policy gate decides first, and a refused attempt mutates nothing
            (!old(self).rotation_due(key_id@, now as int, force)) <==> (r matches Err(e)
                && e matches KmsError::RotationNotDue(_)),
            r matches Err(KmsError::RotationNotDue(d)) ==> d as int == old(
                self,
            ).spec_config().rotation_interval_days - spec_days_since(
                now as int,
                old(self).last_rotation_map()[key_id@],
            ),
            // the entropy gate decides second
            (r == Err::<RotationResult, KmsError>(
                KmsError::InsufficientEntropy(entropy_millibits_spec(material@) as u32),
            )) <==> (old(self).rotation_due(key_id@, now as int, force)
                && entropy_millibits_spec(material@) < old(self).store.spec_min_entropy() as int),
            // an unknown key decides third
            (r == Err::<RotationResult, KmsError>(KmsError::NotFound)) <==> (old(
                self,
            ).rotation_due(key_id@, now as int, force) && entropy_millibits_spec(material@)
                >= old(self).store.spec_min_entropy() as int && !old(self).store@.contains_key(
                key_id@,
            )),
            (r == Err::<RotationResult, KmsError>(KmsError::VersionOverflow)) <==> (old(
                self,
            ).rotation_due(key_id@, now as int, force) && entropy_millibits_spec(material@)
                >= old(self).store.spec_min_entropy() as int && old(self).store@.contains_key(
                key_id@,
            ) && old(self).store@[key_id@].meta.version == u32::MAX),
            // failures mutate neither the store nor the rotation times
            r matches Err(e) ==> final(self).store@ == old(self).store@ && final(self).last_rotation_map() == old(self).last_rotation_map() && final(self).audit@ == old(
                self,
            ).audit@.push(rotation_event(key_id@, user@, now as int, false)),
            // success is owed whenever every gate passes
            (r is Ok) <==> (old(self).rotation_due(key_id@, now as int, force)
                && entropy_millibits_spec(material@) >= old(self).store.spec_min_entropy() as int
                && old(self).store@.contains_key(key_id@) && old(self)
                .store@[key_id@].meta.version < u32::MAX),
            r matches Ok(res) ==> {
                &&& final(self).store@ == KeyStore::updated_map(
                    old(self).store@,
                    key_id@,
                    material@,
                    entropy_millibits_spec(material@),
                    user@,
                    now as int,
                )
                &&& final(self).last_rotation_map() == old(self).last_rotation_map().insert(
                    key_id@,
                    now as int,
                )
                &&& final(self).audit@ == old(self).audit@.push(
                    rotation_event(key_id@, user@, now as int, true),
                )
                &&& res.key_id@ == key_id@
                &&& res.rotation_time == now
                &&& res.success == true
                &&& res.entropy_score as int == entropy_millibits_spec(material@)
                &&& res.rotated_by@ == user@
                &&& res.new_version as int == old(self).store@[key_id@].meta.version + 1
            },
    {
        let key = key_id.to_owned();

        // Policy gate.
        if !force {
            proof {
                lemma_tm_contains(self.last_rotation@, key_id@);
            }
            match self.find_rotation_entry(&key) {
                Some(i) => {
                    proof {
                        lemma_tm_index(self.last_rotation@, i as int);
                    }
                    let last_time = self.last_rotation[i].1;
                    let days_since_rotation: i64 = if now >= last_time {
                        (now - last_time) / 86400
                    } else {
                        0
                    };
                    if days_since_rotation < self.config.rotation_interval_days {
                        let remaining = self.config.rotation_interval_days - days_since_rotation;
                        let _ = self.audit.record_at(
                            AuditEventType::KeyRotation,
                            key,
                            user,
                            false,
                            None,
                            now,
                        );
                        return Err(KmsError::RotationNotDue(remaining));
                    }
                },
                None => {},
            }
        }

        // Entropy gate: score the candidate material.
        let entropy_score = entropy_millibits(material.as_slice());
        if entropy_score < self.store.min_entropy() {
            let _ = self.audit.record_at(
                AuditEventType::KeyRotation,
                key,
                user,
                false,
                None,
                now,
            );
            return Err(KmsError::InsufficientEntropy(entropy_score));
        }

        // Update the key with versioning.
        proof {
            if self.store@.contains_key(key_id@) {
                self.store.lemma_wf_record(key_id@);
            }
        }
        match self.store.update_key_at(key_id, material, entropy_score, user.clone(), now) {
            Err(e) => {
                let _ = self.audit.record_at(
                    AuditEventType::KeyRotation,
                    key,
                    user,
                    false,
                    None,
                    now,
                );
                Err(e)
            },
            Ok(()) => {
                self.set_last_rotation(key, now);

                // Re-read the key's current version from the store snapshot,
                // falling back to 1 if the lookup were ever to miss (it
                // provably cannot for a key just updated).
                let snapshot = self.store.list_keys();
                let lookup_key = key_id.to_owned();
                let mut new_version: u32 = 1;
                let mut found = false;
                let mut i: usize = 0;
                while i < snapshot.len()
                    invariant
                        i <= snapshot@.len(),
                        lookup_key@ == key_id@,
                        !found ==> forall|j: int| 0 <= j < i ==> snapshot@[j].0@ != key_id@,
                        found ==> self.store@.contains_key(key_id@) && new_version as int
                            == self.store@[key_id@].meta.version,
                        forall|j: int|
                            0 <= j < snapshot@.len() ==> self.store@.contains_key(
                                #[trigger] snapshot@[j].0@,
                            ) && snapshot@[j].1@ == self.store@[snapshot@[j].0@].meta,
                        forall|k: Seq<char>| #[trigger]
                            self.store@.contains_key(k) ==> exists|j: int|
                                0 <= j < snapshot@.len() && snapshot@[j].0@ == k,
                    decreases snapshot@.len() - i,
                {
                    if !found && snapshot[i].0 == lookup_key {
                        new_version = snapshot[i].1.version;
                        found = true;
                    }
                    i = i + 1;
                }
                proof {
                    if !found {
                        assert(self.store@.contains_key(key_id@));
                        let j = choose|j: int|
                            0 <= j < snapshot@.len() && snapshot@[j].0@ == key_id@;
                        assert(false);
                    }
                }

                let _ = self.audit.record_at(
                    AuditEventType::KeyRotation,
                    key_id.to_owned(),
                    user.clone(),
                    true,
                    None,
                    now,
                );
                Ok(RotationResult {
                    key_id: key_id.to_owned(),
                    rotation_time: now,
                    success: true,
                    entropy_score,
                    rotated_by: user,
                    new_version,
                })
            },
        }
    }

    /// Rotate a key: consult the policy gate, draw fresh random material,
    /// score it, update the store, and audit the outcome.
    ///
    /// Any failure leaves the store and the rotation timestamps unchanged;
    /// every attempt appends exactly one `KeyRotation` audit event.
    pub fn rotate_key(&mut self, key_id: &str, user: String, force: bool) -> (r: Result<
        RotationResult,
        KmsError,
    >)
        requires
            old(self).wf(),
        ensures
            final(self).wf(),
            final(self).spec_config() == old(self).spec_config(),
            final(self).store.spec_min_entropy() == old(self).store.spec_min_entropy(),
            r matches Err(e) ==> final(self).store@ == old(self).store@ && final(self).last_rotation_map() == old(self).last_rotation_map(),
            r matches Err(e) ==> final(self).audit@.len() == old(self).audit@.len() + 1 && final(self).audit@.drop_last() == old(self).audit@ && final(self).audit@.last() == (
            rotation_event(key_id@, user@, final(self).audit@.last().timestamp, false)),
            (r matches Err(e) && e matches KmsError::RotationNotDue(_)) ==> !force && old(
                self,
            ).last_rotation_map().contains_key(key_id@),
            r == Err::<RotationResult, KmsError>(KmsError::NotFound) ==> !old(
                self,
            ).store@.contains_key(key_id@),
            r matches Ok(res) ==> {
                &&& res.success == true
                &&& res.key_id@ == key_id@
                &&& res.rotated_by@ == user@
                &&& res.rotation_time >= 0
                &&& res.entropy_score >= old(self).store.spec_min_entropy()
                &&& old(self).store@.contains_key(key_id@)
                &&& res.new_version as int == old(self).store@[key_id@].meta.version + 1
                &&& exists|m: Seq<u8>|
                    entropy_millibits_spec(m) == res.entropy_score as int && final(self).store@
                        == KeyStore::updated_map(
                        old(self).store@,
                        key_id@,
                        m,
                        res.entropy_score as int,
                        user@,
                        res.rotation_time as int,
                    )
                &&& final(self).last_rotation_map() == old(self).last_rotation_map().insert(
                    key_id@,
                    res.rotation_time as int,
                )
                &&& final(self).audit@ == old(self).audit@.push(
                    rotation_event(key_id@, user@, res.rotation_time as int, true),
                )
            },
    {
        let now = now_timestamp();
        let material = match secure_random_bytes(self.config.material_len) {
            Ok(m) => m,
            Err(e) => {
                let _ = self.audit.record_at(
                    AuditEventType::KeyRotation,
                    key_id.to_owned(),
                    user,
                    false,
                    None,
                    now,
                );
                return Err(e);
            },
        };
        let ghost m = material@;
        let r = self.rotate_key_with(key_id, user, force, now, material);
        proof {
            if r is Ok {
                let res = r->Ok_0;
                assert(entropy_millibits_spec(m) == res.entropy_score as int && final(self).store@
                    == KeyStore::updated_map(
                    old(self).store@,
                    key_id@,
                    m,
                    res.entropy_score as int,
                    user@,
                    res.rotation_time as int,
                ));
            }
        }
        r
    }
}

} // verus!
