//! Append-only audit trail of key-management operations.
//!
//! Every event lives in two structures: one globally ordered sequence and a
//! per-key grouped sequence.  The log's invariant keeps the two mutually
//! consistent — each key's group is exactly the global sequence filtered to
//! that key, in insertion order — and `record` updates both as one unit.

use vstd::prelude::*;
use crate::errors::KmsError;
use crate::time::now_timestamp;

verus! {

/// What kind of operation an audit event describes.
#[derive(Clone, Copy, Debug, PartialEq, Eq, Structural)]
pub enum AuditEventType {
    KeyCreation,
    KeyAccess,
    KeyRotation,
    KeyDeletion,
}

/// One immutable entry of the audit trail.
#[derive(Debug)]
pub struct AuditEvent {
    pub event_type: AuditEventType,
    pub key_id: String,
    pub user: String,
    /// Unix timestamp at which the event was recorded.
    pub timestamp: i64,
    pub success: bool,
    pub details: Option<String>,
}

/// The mathematical value of an audit event.
pub ghost struct AuditEventV {
    pub event_type: AuditEventType,
    pub key_id: Seq<char>,
    pub user: Seq<char>,
    pub timestamp: int,
    pub success: bool,
    pub details: Option<Seq<char>>,
}

/// The view of an optional detail string.
pub open spec fn details_view(d: Option<String>) -> Option<Seq<char>> {
    match d {
        Some(s) => Some(s@),
        None => None,
    }
}

impl View for AuditEvent {
    type V = AuditEventV;

    open spec fn view(&self) -> AuditEventV {
        AuditEventV {
            event_type: self.event_type,
            key_id: self.key_id@,
            user: self.user@,
            timestamp: self.timestamp as int,
            success: self.success,
            details: details_view(self.details),
        }
    }
}

impl Clone for AuditEvent {
    fn clone(&self) -> (r: Self)
        ensures
            r == *self,
    {
        AuditEvent {
            event_type: self.event_type,
            key_id: self.key_id.clone(),
            user: self.user.clone(),
            timestamp: self.timestamp,
            success: self.success,
            details: match &self.details {
                Some(s) => Some(s.clone()),
                None => None,
            },
        }
    }
}

/// The events of key `k`, in global insertion order.
pub open spec fn events_for(log: Seq<AuditEventV>, k: Seq<char>) -> Seq<AuditEventV> {
    log.filter(|e: AuditEventV| e.key_id == k)
}

/// The failed events of the whole log, in global insertion order.
pub open spec fn failed_events(log: Seq<AuditEventV>) -> Seq<AuditEventV> {
    log.filter(|e: AuditEventV| !e.success)
}

proof fn lemma_filter_push<A>(s: Seq<A>, pred: spec_fn(A) -> bool, e: A)
    ensures
        s.push(e).filter(pred) == if pred(e) {
            s.filter(pred).push(e)
        } else {
            s.filter(pred)
        },
{
    reveal(Seq::filter);
    assert(s.push(e).drop_last() =~= s);
}

proof fn lemma_filter_all_excluded<A>(s: Seq<A>, pred: spec_fn(A) -> bool)
    requires
        forall|i: int| 0 <= i < s.len() ==> !pred(s[i]),
    ensures
        s.filter(pred) == Seq::<A>::empty(),
    decreases s.len(),
{
    reveal(Seq::filter);
    if s.len() > 0 {
        lemma_filter_all_excluded(s.drop_last(), pred);
    }
}

/// Recording an event for key `k` extends exactly that key's history by
/// that event and leaves every other key's history unchanged.
pub proof fn lemma_history_after_record(log: Seq<AuditEventV>, e: AuditEventV, k: Seq<char>)
    ensures
        events_for(log.push(e), k) == if e.key_id == k {
            events_for(log, k).push(e)
        } else {
            events_for(log, k)
        },
{
    lemma_filter_push(log, |ev: AuditEventV| ev.key_id == k, e);
}

/// Recording an event extends the failed-attempt view exactly when the
/// event was a failure.
pub proof fn lemma_failed_after_record(log: Seq<AuditEventV>, e: AuditEventV)
    ensures
        failed_events(log.push(e)) == if !e.success {
            failed_events(log).push(e)
        } else {
            failed_events(log)
        },
{
    lemma_filter_push(log, |ev: AuditEventV| !ev.success, e);
}

/// Append-only event trail, globally ordered and grouped per key.
pub struct AuditLog {
    events: Vec<AuditEvent>,
    key_history: Vec<(String, Vec<AuditEvent>)>,
}

impl View for AuditLog {
    type V = Seq<AuditEventV>;

    closed spec fn view(&self) -> Seq<AuditEventV> {
        self.events@.map_values(|e: AuditEvent| e@)
    }
}

impl AuditLog {
    /// Some group carries key `k`.
    spec fn has_group(self, k: Seq<char>) -> bool {
        exists|j: int| 0 <= j < self.key_history@.len() && self.key_history@[j].0@ == k
    }

    /// The grouped structure mirrors the global log: group keys are unique,
    /// each group holds exactly its key's filtered view of the global log,
    /// and every recorded event has a group.
    pub closed spec fn wf(self) -> bool {
        &&& forall|i: int, j: int|
            0 <= i < j < self.key_history@.len() ==> self.key_history@[i].0@
                != self.key_history@[j].0@
        &&& forall|i: int|
            0 <= i < self.key_history@.len() ==> (#[trigger] self.key_history@[i].1)@.map_values(
                |e: AuditEvent| e@,
            ) == events_for(self@, self.key_history@[i].0@)
        &&& forall|i: int|
            0 <= i < self.events@.len() ==> self.has_group(
                (#[trigger] self.events@[i]).key_id@,
            )
    }

    /// An empty audit log.
    pub fn new() -> (r: AuditLog)
        ensures
            r.wf(),
            r@ == Seq::<AuditEventV>::empty(),
    {
        let r = AuditLog { events: Vec::new(), key_history: Vec::new() };
        proof {
            assert(r@ =~= Seq::<AuditEventV>::empty());
        }
        r
    }

    fn find_group(&self, key: &String) -> (r: Option<usize>)
        ensures
            match r {
                Some(i) => i < self.key_history@.len() && self.key_history@[i as int].0@ == key@,
                None => forall|j: int|
                    0 <= j < self.key_history@.len() ==> self.key_history@[j].0@ != key@,
            },
    {
        let mut i: usize = 0;
        while i < self.key_history.len()
            invariant
                i <= self.key_history@.len(),
                forall|j: int| 0 <= j < i ==> self.key_history@[j].0@ != key@,
            decreases self.key_history@.len() - i,
        {
            if self.key_history[i].0 == *key {
                return Some(i);
            }
            i = i + 1;
        }
        None
    }

    /// Record one event, stamped with time `now`: it is appended to the
    /// global log and to its key's group as one unit.
    pub fn record_at(
        &mut self,
        event_type: AuditEventType,
        key_id: String,
        user: String,
        success: bool,
        details: Option<String>,
        now: i64,
    ) -> (r: Result<(), KmsError>)
        requires
            old(self).wf(),
        ensures
            final(self).wf(),
            r is Ok,
            final(self)@ == old(self)@.push(
                AuditEventV {
                    event_type,
                    key_id: key_id@,
                    user: user@,
                    timestamp: now as int,
                    success,
                    details: details_view(details),
                },
            ),
    {
        let event = AuditEvent {
            event_type,
            key_id,
            user,
            timestamp: now,
            success,
            details,
        };
        let ghost l0 = self@;
        let ghost ev = event@;
        let ghost k = event.key_id@;
        let group_event = event.clone();
        let key_copy = event.key_id.clone();
        self.events.push(event);
        proof {
            assert(self@ =~= l0.push(ev));
        }
        match self.find_group(&key_copy) {
            Some(i) => {
                let ghost groups0 = self.key_history@;
                let (gkey, mut gvec) = self.key_history.remove(i);
                gvec.push(group_event);
                self.key_history.insert(i, (gkey, gvec));
                proof {
                    assert(self.key_history@ =~= groups0.update(i as int, (gkey, gvec)));
                    assert(gvec@.map_values(|e: AuditEvent| e@) =~= groups0[i as int].1@.map_values(
                        |e: AuditEvent| e@,
                    ).push(ev));
                    assert forall|j: int| 0 <= j < self.key_history@.len() implies (
                    #[trigger] self.key_history@[j].1)@.map_values(|e: AuditEvent| e@)
                        == events_for(self@, self.key_history@[j].0@) by {
                        lemma_history_after_record(l0, ev, self.key_history@[j].0@);
                    }
                    assert(forall|j: int|
                        0 <= j < self.key_history@.len() ==> (#[trigger] self.key_history@[j]).0
                            == groups0[j].0);
                    assert forall|i2: int| 0 <= i2 < self.events@.len() implies self.has_group(
                        (#[trigger] self.events@[i2]).key_id@,
                    ) by {
                        if i2 < self.events@.len() - 1 {
                            assert(self.events@[i2] == old(self).events@[i2]);
                            assert(old(self).has_group(old(self).events@[i2].key_id@));
                            let j = choose|j: int|
                                0 <= j < old(self).key_history@.len() && old(
                                    self,
                                ).key_history@[j].0@ == old(self).events@[i2].key_id@;
                            assert(self.key_history@[j].0@ == old(self).key_history@[j].0@);
                        } else {
                            assert(self.events@[i2].key_id@ == k);
                            assert(self.key_history@[i as int].0@ == k);
                        }
                    }
                }
                Ok(())
            },
            None => {
                let ghost groups0 = self.key_history@;
                let mut gvec: Vec<AuditEvent> = Vec::new();
                gvec.push(group_event);
                self.key_history.push((key_copy, gvec));
                proof {
                    let glen = self.key_history@.len();
                    assert(self.key_history@[glen - 1].0@ == k);
                    assert forall|j: int| 0 <= j < glen implies (
                    #[trigger] self.key_history@[j].1)@.map_values(|e: AuditEvent| e@)
                        == events_for(self@, self.key_history@[j].0@) by {
                        lemma_history_after_record(l0, ev, self.key_history@[j].0@);
                        if j < glen - 1 {
                            assert(self.key_history@[j] == groups0[j]);
                        } else {
                            lemma_filter_all_excluded(
                                l0,
                                |e2: AuditEventV| e2.key_id == k,
                            );
                            assert(gvec@.map_values(|e: AuditEvent| e@) =~= events_for(
                                l0,
                                k,
                            ).push(ev));
                        }
                    }
                    assert forall|i2: int| 0 <= i2 < self.events@.len() implies self.has_group(
                        (#[trigger] self.events@[i2]).key_id@,
                    ) by {
                        if i2 < self.events@.len() - 1 {
                            assert(self.events@[i2] == old(self).events@[i2]);
                            assert(old(self).has_group(old(self).events@[i2].key_id@));
                            let j = choose|j: int|
                                0 <= j < old(self).key_history@.len() && old(
                                    self,
                                ).key_history@[j].0@ == old(self).events@[i2].key_id@;
                            assert(self.key_history@[j].0@ == old(self).key_history@[j].0@);
                        } else {
                            assert(self.events@[i2].key_id@ == k);
                            assert(self.key_history@[glen - 1].0@ == k);
                        }
                    }
                }
                Ok(())
            },
        }
    }

    /// Record one event stamped with the current time.
    pub fn record(
        &mut self,
        event_type: AuditEventType,
        key_id: String,
        user: String,
        success: bool,
        details: Option<String>,
    ) -> (r: Result<(), KmsError>)
        requires
            old(self).wf(),
        ensures
            final(self).wf(),
            r is Ok,
            final(self)@.len() == old(self)@.len() + 1,
            final(self)@.drop_last() == old(self)@,
            final(self)@.last() == (AuditEventV {
                event_type,
                key_id: key_id@,
                user: user@,
                timestamp: final(self)@.last().timestamp,
                success,
                details: details_view(details),
            }),
            final(self)@.last().timestamp >= 0,
    {
        let now = now_timestamp();
        let r = self.record_at(event_type, key_id, user, success, details, now);
        proof {
            assert(final(self)@.drop_last() =~= old(self)@);
        }
        r
    }

    /// All events recorded for one key, in insertion order.
    pub fn get_key_history(&self, key_id: &str) -> (r: Vec<AuditEvent>)
        requires
            self.wf(),
        ensures
            r@.map_values(|e: AuditEvent| e@) == events_for(self@, key_id@),
    {
        let key = key_id.to_owned();
        match self.find_group(&key) {
            Some(i) => {
                let group = &self.key_history[i].1;
                let r = clone_events(group);
                proof {
                    assert(r@.map_values(|e: AuditEvent| e@) =~= events_for(self@, key_id@));
                }
                r
            },
            None => {
                proof {
                    assert forall|i: int| 0 <= i < self@.len() implies !(self@[i].key_id
                        == key_id@) by {
                        assert(self.has_group(self.events@[i].key_id@));
                        let j = choose|j: int|
                            0 <= j < self.key_history@.len() && self.key_history@[j].0@
                                == self.events@[i].key_id@;
                        assert(self.key_history@[j].0@ != key_id@);
                    }
                    lemma_filter_all_excluded(self@, |e: AuditEventV| e.key_id == key_id@);
                }
                Vec::new()
            },
        }
    }

    /// All events with `success == false`, in global insertion order.
    pub fn get_failed_attempts(&self) -> (r: Vec<AuditEvent>)
        requires
            self.wf(),
        ensures
            r@.map_values(|e: AuditEvent| e@) == failed_events(self@),
    {
        let mut out: Vec<AuditEvent> = Vec::new();
        let mut i: usize = 0;
        proof {
            lemma_filter_all_excluded(
                self@.take(0),
                |e: AuditEventV| !e.success,
            );
            assert(self@.take(0) =~= Seq::<AuditEventV>::empty());
            assert(out@.map_values(|e: AuditEvent| e@) =~= Seq::<AuditEventV>::empty());
        }
        while i < self.events.len()
            invariant
                i <= self.events@.len(),
                self@.len() == self.events@.len(),
                out@.map_values(|e: AuditEvent| e@) == failed_events(self@.take(i as int)),
            decreases self.events@.len() - i,
        {
            let ghost prefix = self@.take(i as int);
            proof {
                assert(self@.take(i + 1) =~= prefix.push(self@[i as int]));
                lemma_filter_push(prefix, |e: AuditEventV| !e.success, self@[i as int]);
            }
            let e = &self.events[i];
            if !e.success {
                out.push(e.clone());
                proof {
                    assert(out@.map_values(|e2: AuditEvent| e2@) =~= failed_events(
                        prefix,
                    ).push(self@[i as int]));
                }
            }
            i = i + 1;
        }
        proof {
            assert(self@.take(self.events@.len() as int) =~= self@);
        }
        out
    }
}

/// A verified element-for-element copy of an event list.
fn clone_events(v: &Vec<AuditEvent>) -> (r: Vec<AuditEvent>)
    ensures
        r@ == v@,
{
    let mut out: Vec<AuditEvent> = Vec::new();
    let mut i: usize = 0;
    while i < v.len()
        invariant
            i <= v@.len(),
            out@ == v@.take(i as int),
        decreases v@.len() - i,
    {
        out.push(v[i].clone());
        proof {
            assert(out@ =~= v@.take(i + 1));
        }
        i = i + 1;
    }
    proof {
        assert(v@.take(v@.len() as int) =~= v@);
    }
    out
}

} // verus!
