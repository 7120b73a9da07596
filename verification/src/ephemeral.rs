//! TTL-based storage of short-lived, high-churn secrets.
//!
//! Ephemeral entries are independent of the versioned store: they carry no
//! history, are regenerated in place, and are never audited.  A sweep takes
//! a snapshot of every entry's age and regenerates those at or past the
//! TTL; a failure regenerating one id aborts the remainder of the sweep,
//! leaving the already-regenerated entries in place.  An embedding that
//! shares one manager across threads serializes whole calls around it, so
//! an id regenerated concurrently is simply seen fresh by the next sweep.

use vstd::prelude::*;
use crate::errors::KmsError;
use crate::config::KmsConfig;
use crate::entropy::{entropy_millibits, entropy_millibits_spec};
use crate::random::secure_random_bytes;
use crate::time::now_timestamp;

verus! {

/// One ephemeral secret's bookkeeping: when it was (re)generated and how
/// its material scored.  The material itself is handed to the consumer and
/// not retained.
#[derive(Debug)]
pub struct EphemeralKeyData {
    /// Unix timestamp of the last regeneration.
    pub timestamp: i64,
    pub key_id: String,
    /// Measured entropy of the last material, in millibits/byte.
    pub entropy_score: u32,
}

/// The mathematical value of an ephemeral entry.
pub ghost struct EphemeralKeyDataV {
    pub timestamp: int,
    pub key_id: Seq<char>,
    pub entropy_score: int,
}

impl View for EphemeralKeyData {
    type V = EphemeralKeyDataV;

    open spec fn view(&self) -> EphemeralKeyDataV {
        EphemeralKeyDataV {
            timestamp: self.timestamp as int,
            key_id: self.key_id@,
            entropy_score: self.entropy_score as int,
        }
    }
}

impl Clone for EphemeralKeyData {
    fn clone(&self) -> (r: Self)
        ensures
            r == *self,
    {
        EphemeralKeyData {
            timestamp: self.timestamp,
            key_id: self.key_id.clone(),
            entropy_score: self.entropy_score,
        }
    }
}

/// An entry is due for regeneration when its age at time `now` has reached
/// the TTL.
pub open spec fn is_expired(e: EphemeralKeyDataV, now: int, ttl: int) -> bool {
    now - e.timestamp >= ttl
}

/// No entry of `pre` has reached the TTL at time `now`.
pub open spec fn none_expired(pre: Map<Seq<char>, EphemeralKeyDataV>, now: int, ttl: int) -> bool {
    forall|k: Seq<char>| #[trigger] pre.contains_key(k) ==> !is_expired(pre[k], now, ttl)
}

/// `post` is a (possibly aborted) sweep of `pre` at time `now`: entries
/// younger than the TTL are untouched, and an entry at or past the TTL is
/// either still untouched or regenerated with the sweep's timestamp and an
/// admitted score.
pub open spec fn sweep_partial(
    pre: Map<Seq<char>, EphemeralKeyDataV>,
    post: Map<Seq<char>, EphemeralKeyDataV>,
    now: int,
    ttl: int,
    min_entropy: int,
) -> bool {
    forall|k: Seq<char>| #[trigger] pre.contains_key(k) ==> if is_expired(pre[k], now, ttl) {
        post[k] == pre[k] || (post[k].timestamp == now && post[k].key_id == k
            && post[k].entropy_score >= min_entropy)
    } else {
        post[k] == pre[k]
    }
}

/// `post` is `pre` after a full sweep at time `now`: entries at or past the
/// TTL are regenerated with the sweep's timestamp and an admitted score,
/// younger entries are untouched.
pub open spec fn swept(
    pre: Map<Seq<char>, EphemeralKeyDataV>,
    post: Map<Seq<char>, EphemeralKeyDataV>,
    now: int,
    ttl: int,
    min_entropy: int,
) -> bool {
    forall|k: Seq<char>| #[trigger] pre.contains_key(k) ==> if is_expired(pre[k], now, ttl) {
        post[k].timestamp == now && post[k].key_id == k && post[k].entropy_score >= min_entropy
    } else {
        post[k] == pre[k]
    }
}

spec fn em_map_of(es: Seq<EphemeralKeyData>) -> Map<Seq<char>, EphemeralKeyDataV>
    decreases es.len(),
{
    if es.len() == 0 {
        Map::empty()
    } else {
        em_map_of(es.drop_last()).insert(es.last().key_id@, es.last()@)
    }
}

spec fn em_ids_distinct(es: Seq<EphemeralKeyData>) -> bool {
    forall|i: int, j: int| 0 <= i < j < es.len() ==> es[i].key_id@ != es[j].key_id@
}

proof fn lemma_em_contains(es: Seq<EphemeralKeyData>, k: Seq<char>)
    ensures
        em_map_of(es).contains_key(k) <==> exists|i: int| 0 <= i < es.len() && es[i].key_id@ == k,
    decreases es.len(),
{
    if es.len() > 0 {
        let dl = es.drop_last();
        lemma_em_contains(dl, k);
        if es.last().key_id@ == k {
            assert(es[es.len() - 1].key_id@ == k);
        } else {
            if em_map_of(es).contains_key(k) {
                let i = choose|i: int| 0 <= i < dl.len() && dl[i].key_id@ == k;
                assert(es[i].key_id@ == k);
            }
            if exists|i: int| 0 <= i < es.len() && es[i].key_id@ == k {
                let i = choose|i: int| 0 <= i < es.len() && es[i].key_id@ == k;
                assert(dl[i].key_id@ == k);
            }
        }
    }
}

proof fn lemma_em_index(es: Seq<EphemeralKeyData>, i: int)
    requires
        em_ids_distinct(es),
        0 <= i < es.len(),
    ensures
        em_map_of(es).contains_key(es[i].key_id@),
        em_map_of(es)[es[i].key_id@] == es[i]@,
    decreases es.len(),
{
    let dl = es.drop_last();
    if i == es.len() - 1 {
    } else {
        assert(es[es.len() - 1].key_id@ != es[i].key_id@);
        lemma_em_index(dl, i);
    }
}

proof fn lemma_em_push(es: Seq<EphemeralKeyData>, e: EphemeralKeyData)
    ensures
        em_map_of(es.push(e)) == em_map_of(es).insert(e.key_id@, e@),
{
    assert(es.push(e).drop_last() =~= es);
}

proof fn lemma_em_update(es: Seq<EphemeralKeyData>, i: int, e: EphemeralKeyData)
    requires
        em_ids_distinct(es),
        0 <= i < es.len(),
        e.key_id@ == es[i].key_id@,
    ensures
        em_map_of(es.update(i, e)) == em_map_of(es).insert(e.key_id@, e@),
    decreases es.len(),
{
    let dl = es.drop_last();
    let k = e.key_id@;
    if i == es.len() - 1 {
        assert(es.update(i, e).drop_last() =~= dl);
        assert(es.update(i, e).last() == e);
        assert(em_map_of(dl).insert(k, es.last()@).insert(k, e@) =~= em_map_of(dl).insert(k, e@));
    } else {
        assert(es.update(i, e).drop_last() =~= dl.update(i, e));
        assert(es.update(i, e).last() == es.last());
        lemma_em_update(dl, i, e);
        assert(es[es.len() - 1].key_id@ != es[i].key_id@);
        assert(em_map_of(dl).insert(k, e@).insert(es.last().key_id@, es.last()@) =~= em_map_of(
            dl,
        ).insert(es.last().key_id@, es.last()@).insert(k, e@));
    }
}

/// A state satisfying the sweep loop's invariant — ids processed so far
/// regenerated, everything else untouched — is a sound partial sweep,
/// provided every snapshotted id is expired.
proof fn lemma_partial_from_processed(
    pre: Map<Seq<char>, EphemeralKeyDataV>,
    cur: Map<Seq<char>, EphemeralKeyDataV>,
    expired: Seq<String>,
    p: int,
    now: int,
    ttl: int,
    min_entropy: int,
)
    requires
        0 <= p <= expired.len(),
        forall|j: int| 0 <= j < expired.len() ==> pre.contains_key((#[trigger] expired[j])@)
            && is_expired(pre[expired[j]@], now, ttl),
        forall|k: Seq<char>| #[trigger]
            pre.contains_key(k) ==> if exists|j: int| 0 <= j < p && (#[trigger] expired[j])@ == k {
                cur[k].timestamp == now && cur[k].key_id == k && cur[k].entropy_score
                    >= min_entropy
            } else {
                cur[k] == pre[k]
            },
    ensures
        sweep_partial(pre, cur, now, ttl, min_entropy),
{
    assert forall|k: Seq<char>| #[trigger] pre.contains_key(k) implies if is_expired(
        pre[k],
        now,
        ttl,
    ) {
        cur[k] == pre[k] || (cur[k].timestamp == now && cur[k].key_id == k && cur[k].entropy_score
            >= min_entropy)
    } else {
        cur[k] == pre[k]
    } by {
        if !is_expired(pre[k], now, ttl) {
            if exists|j: int| 0 <= j < p && (#[trigger] expired[j])@ == k {
                let j = choose|j: int| 0 <= j < p && (#[trigger] expired[j])@ == k;
                assert(is_expired(pre[expired[j]@], now, ttl));
                assert(false);
            }
        }
    }
}

/// Manager of short-lived secrets with a fixed TTL and entropy-gated
/// regeneration.
pub struct EphemeralKeyManager {
    /// The live entries; treat as internal state.
    pub entries: Vec<EphemeralKeyData>,
    /// The policy knobs this manager was built with.
    pub config: KmsConfig,
}

impl View for EphemeralKeyManager {
    type V = Map<Seq<char>, EphemeralKeyDataV>;

    closed spec fn view(&self) -> Map<Seq<char>, EphemeralKeyDataV> {
        em_map_of(self.entries@)
    }
}

impl EphemeralKeyManager {
    /// Entry ids are unique and consistent with their map key, timestamps
    /// are sanitized, every admitted score is on the 0..8000 millibit scale
    /// and meets the threshold, and the configuration is usable.
    pub closed spec fn wf(self) -> bool {
        &&& em_ids_distinct(self.entries@)
        &&& forall|i: int|
            0 <= i < self.entries@.len() ==> (#[trigger] self.entries@[i]).timestamp >= 0
                && self.entries@[i].entropy_score >= self.config.min_entropy_millibits
                && self.entries@[i].entropy_score <= 8000
        &&& self.config.wf()
    }

    /// Entropy gate: every entry held by a well-formed manager was
    /// admitted at or above the threshold, carries a sanitized timestamp,
    /// and agrees with its map key.
    pub proof fn lemma_admitted_entropy(self, k: Seq<char>)
        requires
            self.wf(),
            self@.contains_key(k),
        ensures
            self@[k].entropy_score >= self.config.min_entropy_millibits as int,
            self@[k].entropy_score <= 8000,
            self@[k].timestamp >= 0,
            self@[k].key_id == k,
    {
        lemma_em_contains(self.entries@, k);
        let i = choose|i: int| 0 <= i < self.entries@.len() && self.entries@[i].key_id@ == k;
        lemma_em_index(self.entries@, i);
    }

    /// An empty manager with the default policy.
    pub fn new() -> (r: EphemeralKeyManager)
        ensures
            r.wf(),
            r@ == Map::<Seq<char>, EphemeralKeyDataV>::empty(),
            r.config == KmsConfig::spec_default(),
    {
        EphemeralKeyManager { entries: Vec::new(), config: KmsConfig::default() }
    }

    /// An empty manager with a custom policy.
    pub fn with_config(config: KmsConfig) -> (r: EphemeralKeyManager)
        requires
            config.wf(),
        ensures
            r.wf(),
            r@ == Map::<Seq<char>, EphemeralKeyDataV>::empty(),
            r.config == config,
    {
        EphemeralKeyManager { entries: Vec::new(), config }
    }

    fn find_entry(&self, key: &String) -> (r: Option<usize>)
        ensures
            match r {
                Some(i) => i < self.entries@.len() && self.entries@[i as int].key_id@ == key@,
                None => forall|j: int|
                    0 <= j < self.entries@.len() ==> self.entries@[j].key_id@ != key@,
            },
    {
        let mut i: usize = 0;
        while i < self.entries.len()
            invariant
                i <= self.entries@.len(),
                forall|j: int| 0 <= j < i ==> self.entries@[j].key_id@ != key@,
            decreases self.entries@.len() - i,
        {
            if self.entries[i].key_id == *key {
                return Some(i);
            }
            i = i + 1;
        }
        None
    }

    /// The bookkeeping entry of one ephemeral id, if present.
    pub fn get_key_data(&self, key_id: &str) -> (r: Option<EphemeralKeyData>)
        requires
            self.wf(),
        ensures
            match r {
                Some(d) => self@.contains_key(key_id@) && d@ == self@[key_id@],
                None => !self@.contains_key(key_id@),
            },
    {
        let key = key_id.to_owned();
        proof {
            lemma_em_contains(self.entries@, key_id@);
        }
        match self.find_entry(&key) {
            Some(i) => {
                proof {
                    lemma_em_index(self.entries@, i as int);
                }
                Some(self.entries[i].clone())
            },
            None => None,
        }
    }

    /// Regenerate one id from the given material at time `now`: material
    /// scoring below the threshold is rejected without storing anything,
    /// otherwise the entry is upserted in place with the new timestamp.
    pub fn regenerate_key_with(&mut self, key_id: &str, now: i64, material: Vec<u8>) -> (r: Result<
        (),
        KmsError,
    >)
        requires
            old(self).wf(),
            now >= 0,
            material@.len() < 0x1_0000_0000,
        ensures
            final(self).wf(),
            final(self).config == old(self).config,
            (r is Ok) <==> entropy_millibits_spec(material@)
                >= old(self).config.min_entropy_millibits as int,
            r matches Err(e) ==> e == KmsError::InsufficientEntropy(
                entropy_millibits_spec(material@) as u32,
            ) && final(self)@ == old(self)@,
            r is Ok ==> final(self)@ == old(self)@.insert(
                key_id@,
                EphemeralKeyDataV {
                    timestamp: now as int,
                    key_id: key_id@,
                    entropy_score: entropy_millibits_spec(material@),
                },
            ),
    {
        let entropy_score = entropy_millibits(material.as_slice());
        if entropy_score < self.config.min_entropy_millibits {
            return Err(KmsError::InsufficientEntropy(entropy_score));
        }
        let key = key_id.to_owned();
        let new_entry = EphemeralKeyData { timestamp: now, key_id: key_id.to_owned(), entropy_score };
        proof {
            lemma_em_contains(self.entries@, key_id@);
        }
        match self.find_entry(&key) {
            Some(i) => {
                let ghost es0 = self.entries@;
                let _ = self.entries.remove(i);
                self.entries.insert(i, new_entry);
                proof {
                    assert(self.entries@ =~= es0.update(i as int, self.entries@[i as int]));
                    lemma_em_update(es0, i as int, self.entries@[i as int]);
                }
            },
            None => {
                proof {
                    lemma_em_push(self.entries@, new_entry);
                }
                self.entries.push(new_entry);
            },
        }
        Ok(())
    }

    /// Regenerate one id from fresh random material stamped with the
    /// current time; material scoring below the threshold is rejected
    /// without storing anything.
    pub fn regenerate_key(&mut self, key_id: &str) -> (r: Result<(), KmsError>)
        requires
            old(self).wf(),
        ensures
            final(self).wf(),
            final(self).config == old(self).config,
            r matches Err(e) ==> (e is InsufficientEntropy || e
                == KmsError::RandomGenerationFailure) && final(self)@ == old(self)@,
            r is Ok ==> {
                &&& final(self)@.contains_key(key_id@)
                &&& final(self)@[key_id@].key_id == key_id@
                &&& final(self)@[key_id@].timestamp >= 0
                &&& final(self)@[key_id@].entropy_score
                    >= old(self).config.min_entropy_millibits as int
                &&& final(self)@.remove(key_id@) == old(self)@.remove(key_id@)
            },
    {
        let now = now_timestamp();
        let material = match secure_random_bytes(self.config.material_len) {
            Ok(m) => m,
            Err(e) => {
                return Err(e);
            },
        };
        let ghost m = material@;
        let r = self.regenerate_key_with(key_id, now, material);
        proof {
            if r is Ok {
                assert(final(self)@.remove(key_id@) =~= old(self)@.remove(key_id@));
            }
        }
        r
    }

    /// Sweep every entry, regenerating those whose age has reached the TTL
    /// at time `now` and leaving younger entries untouched whatever the
    /// outcome.  A failure on one id aborts the remainder of the sweep;
    /// entries already regenerated stay regenerated.  A sweep that finds
    /// nothing expired performs no outside call and always succeeds.
    pub fn sweep_at(&mut self, now: i64) -> (r: Result<(), KmsError>)
        requires
            old(self).wf(),
            now >= 0,
        ensures
            final(self).wf(),
            final(self).config == old(self).config,
            final(self)@.dom() == old(self)@.dom(),
            r matches Err(e) ==> (e is InsufficientEntropy || e
                == KmsError::RandomGenerationFailure),
            sweep_partial(
                old(self)@,
                final(self)@,
                now as int,
                old(self).config.ephemeral_ttl_seconds as int,
                old(self).config.min_entropy_millibits as int,
            ),
            none_expired(
                old(self)@,
                now as int,
                old(self).config.ephemeral_ttl_seconds as int,
            ) ==> r is Ok,
            r is Ok ==> swept(
                old(self)@,
                final(self)@,
                now as int,
                old(self).config.ephemeral_ttl_seconds as int,
                old(self).config.min_entropy_millibits as int,
            ),
    {
        let ttl = self.config.ephemeral_ttl_seconds;

        // Snapshot the expired ids.
        let mut expired: Vec<String> = Vec::new();
        let mut i: usize = 0;
        while i < self.entries.len()
            invariant
                self.wf(),
                self.entries == old(self).entries,
                self.config == old(self).config,
                ttl == self.config.ephemeral_ttl_seconds,
                now >= 0,
                i <= self.entries@.len(),
                forall|j: int| 0 <= j < expired@.len() ==> exists|ei: int|
                    0 <= ei < i && self.entries@[ei].key_id@ == (#[trigger] expired@[j])@,
                forall|j: int| 0 <= j < expired@.len() ==> self@.contains_key(
                    (#[trigger] expired@[j])@,
                ) && is_expired(self@[expired@[j]@], now as int, ttl as int),
                forall|j1: int, j2: int|
                    0 <= j1 < j2 < expired@.len() ==> expired@[j1]@ != expired@[j2]@,
                forall|ei: int|
                    0 <= ei < i && is_expired(
                        (#[trigger] self.entries@[ei])@,
                        now as int,
                        ttl as int,
                    ) ==> exists|j: int| 0 <= j < expired@.len() && expired@[j]@
                        == self.entries@[ei].key_id@,
            decreases self.entries@.len() - i,
        {
            let e = &self.entries[i];
            proof {
                lemma_em_index(self.entries@, i as int);
            }
            if now - e.timestamp >= ttl {
                let ghost expired0 = expired@;
                expired.push(e.key_id.clone());
                proof {
                    let jn = expired@.len() - 1;
                    assert(expired@[jn]@ == self.entries@[i as int].key_id@);
                    assert forall|j1: int, j2: int|
                        0 <= j1 < j2 < expired@.len() implies expired@[j1]@ != expired@[j2]@ by {
                        if j2 == jn {
                            let ei = choose|ei: int|
                                0 <= ei < i && self.entries@[ei].key_id@ == expired0[j1]@;
                            assert(self.entries@[ei].key_id@ != self.entries@[i as int].key_id@);
                        }
                    }
                    assert forall|ei: int|
                        0 <= ei < i + 1 && is_expired(
                            (#[trigger] self.entries@[ei])@,
                            now as int,
                            ttl as int,
                        ) implies exists|j: int| 0 <= j < expired@.len() && expired@[j]@
                        == self.entries@[ei].key_id@ by {
                        if ei < i {
                            let j0 = choose|j0: int|
                                0 <= j0 < expired0.len() && expired0[j0]@
                                    == self.entries@[ei].key_id@;
                            assert(expired@[j0]@ == self.entries@[ei].key_id@);
                        } else {
                            assert(expired@[jn]@ == self.entries@[ei].key_id@);
                        }
                    }
                }
            }
            i = i + 1;
        }
        let ghost m0 = self@;
        proof {
            assert forall|k: Seq<char>| #[trigger]
                m0.contains_key(k) && is_expired(m0[k], now as int, ttl as int) implies exists|
                j: int,
            | 0 <= j < expired@.len() && expired@[j]@ == k by {
                lemma_em_contains(self.entries@, k);
                let ei = choose|ei: int|
                    0 <= ei < self.entries@.len() && self.entries@[ei].key_id@ == k;
                lemma_em_index(self.entries@, ei);
            }
        }

        // Regenerate each expired id in turn; the first failure aborts the
        // remainder of the sweep.
        let mut p: usize = 0;
        while p < expired.len()
            invariant
                self.wf(),
                self.config == old(self).config,
                m0 == old(self)@,
                ttl == self.config.ephemeral_ttl_seconds,
                now >= 0,
                p <= expired@.len(),
                self@.dom() == m0.dom(),
                forall|j: int| 0 <= j < expired@.len() ==> m0.contains_key(
                    (#[trigger] expired@[j])@,
                ) && is_expired(m0[expired@[j]@], now as int, ttl as int),
                forall|j1: int, j2: int|
                    0 <= j1 < j2 < expired@.len() ==> expired@[j1]@ != expired@[j2]@,
                forall|k: Seq<char>| #[trigger]
                    m0.contains_key(k) && is_expired(m0[k], now as int, ttl as int) ==> exists|
                    j: int,
                | 0 <= j < expired@.len() && expired@[j]@ == k,
                forall|k: Seq<char>| #[trigger]
                    m0.contains_key(k) ==> if exists|j: int|
                        0 <= j < p && (#[trigger] expired@[j])@ == k {
                        self@[k].timestamp == now as int && self@[k].key_id == k
                            && self@[k].entropy_score >= self.config.min_entropy_millibits as int
                    } else {
                        self@[k] == m0[k]
                    },
            decreases expired@.len() - p,
        {
            proof {
                // An abort at this point leaves a sound partial sweep, and
                // the loop only runs at all because something is expired.
                assert(!none_expired(m0, now as int, ttl as int)) by {
                    assert(m0.contains_key(expired@[p as int]@) && is_expired(
                        m0[expired@[p as int]@],
                        now as int,
                        ttl as int,
                    ));
                }
                lemma_partial_from_processed(m0, self@, expired@, p as int, now as int, ttl as int, self.config.min_entropy_millibits as int);
            }
            let material = match secure_random_bytes(self.config.material_len) {
                Ok(m) => m,
                Err(e) => {
                    return Err(e);
                },
            };
            let ghost pre = self@;
            let id_ref = &expired[p];
            let ghost k_now = expired@[p as int]@;
            let r = self.regenerate_key_with(id_ref.as_str(), now, material);
            match r {
                Err(e) => {
                    proof {
                        lemma_partial_from_processed(m0, self@, expired@, p as int, now as int, ttl as int, self.config.min_entropy_millibits as int);
                    }
                    return Err(e);
                },
                Ok(()) => {},
            }
            proof {
                assert(self@.dom() =~= pre.dom());
                assert forall|k: Seq<char>| #[trigger]
                    m0.contains_key(k) implies if exists|j: int|
                        0 <= j < p + 1 && (#[trigger] expired@[j])@ == k {
                        self@[k].timestamp == now as int && self@[k].key_id == k
                            && self@[k].entropy_score >= self.config.min_entropy_millibits as int
                    } else {
                        self@[k] == m0[k]
                    } by {
                    if k == k_now {
                        assert(expired@[p as int]@ == k);
                    } else {
                        assert(self@[k] == pre[k]);
                        if exists|j: int| 0 <= j < p + 1 && (#[trigger] expired@[j])@ == k {
                            let j = choose|j: int| 0 <= j < p + 1 && (#[trigger] expired@[j])@ == k;
                            assert(j < p);
                        }
                    }
                }
            }
            p = p + 1;
        }
        proof {
            assert forall|k: Seq<char>| #[trigger]
                m0.contains_key(k) implies if is_expired(m0[k], now as int, ttl as int) {
                self@[k].timestamp == now as int && self@[k].key_id == k && self@[k].entropy_score
                    >= self.config.min_entropy_millibits as int
            } else {
                self@[k] == m0[k]
            } by {
                if is_expired(m0[k], now as int, ttl as int) {
                    let j = choose|j: int| 0 <= j < expired@.len() && expired@[j]@ == k;
                    assert(exists|j2: int|
                        0 <= j2 < expired@.len() && (#[trigger] expired@[j2])@ == k);
                } else {
                    if exists|j: int| 0 <= j < expired@.len() && (#[trigger] expired@[j])@ == k {
                        let j = choose|j: int|
                            0 <= j < expired@.len() && (#[trigger] expired@[j])@ == k;
                        assert(is_expired(m0[expired@[j]@], now as int, ttl as int));
                        assert(false);
                    }
                }
            }
        }
        proof {
            assert(sweep_partial(
                m0,
                self@,
                now as int,
                ttl as int,
                self.config.min_entropy_millibits as int,
            ));
        }
        Ok(())
    }

    /// Sweep every entry against the current time, regenerating those at
    /// or past the TTL; see `sweep_at`.
    pub fn check_and_rotate_keys(&mut self) -> (r: Result<(), KmsError>)
        requires
            old(self).wf(),
        ensures
            final(self).wf(),
            final(self).config == old(self).config,
            final(self)@.dom() == old(self)@.dom(),
            r matches Err(e) ==> (e is InsufficientEntropy || e
                == KmsError::RandomGenerationFailure),
            exists|t: int|
                t >= 0 && #[trigger] sweep_partial(
                    old(self)@,
                    final(self)@,
                    t,
                    old(self).config.ephemeral_ttl_seconds as int,
                    old(self).config.min_entropy_millibits as int,
                ) && (r is Ok ==> swept(
                    old(self)@,
                    final(self)@,
                    t,
                    old(self).config.ephemeral_ttl_seconds as int,
                    old(self).config.min_entropy_millibits as int,
                )) && (none_expired(
                    old(self)@,
                    t,
                    old(self).config.ephemeral_ttl_seconds as int,
                ) ==> r is Ok),
    {
        let now = now_timestamp();
        let r = self.sweep_at(now);
        proof {
            assert(sweep_partial(
                old(self)@,
                final(self)@,
                now as int,
                old(self).config.ephemeral_ttl_seconds as int,
                old(self).config.min_entropy_millibits as int,
            ));
        }
        r
    }
}

} // verus!
