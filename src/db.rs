use vstd::prelude::*;
use crate::auth::AppID;
use crate::error::Error;
use crate::names::{canonical, name_views, utf8, NAME_MAX};
use crate::store::{
    expiry, first_pos, keep_last, live, live_names_of, lemma_audited_wf, lemma_first_pos, lemma_first_pos_at,
    lemma_grant_model_wf, lemma_revoke_model_wf,
    names_of, AuditAction, AuditRecord, GrantView, StoreView, AUDIT_SLOTS, MAX_APPS,
    MAX_GRANTS_PER_APP,
};

verus! {

/// A stored grant.
#[derive(Debug, Clone, Copy)]
pub struct Grant {
    /// Clear name in canonical form: up to 31 bytes, zero-padded.
    pub cap_name: [u8; 32],
    /// Clock value (ms) of the grant or its last renewal.
    pub granted_at: u64,
    /// Clock value (ms) from which the grant no longer holds; `None`: permanent.
    pub expires_at: Option<u64>,
    /// `false` once revoked (a tombstone).
    pub active: bool,
}

impl View for Grant {
    type V = GrantView;

    open spec fn view(&self) -> GrantView {
        GrantView {
            name: self.cap_name@,
            granted_at: self.granted_at,
            expires_at: self.expires_at,
            active: self.active,
        }
    }
}

/// One audited event.
#[derive(Debug, Clone, Copy)]
pub struct AuditEvent {
    pub timestamp: u64,
    pub app_id: AppID,
    pub action: AuditAction,
    pub cap_name: [u8; 32],
    pub success: bool,
}

impl View for AuditEvent {
    type V = AuditRecord;

    open spec fn view(&self) -> AuditRecord {
        AuditRecord {
            timestamp: self.timestamp,
            app: self.app_id.0,
            action: self.action,
            name: self.cap_name@,
            success: self.success,
        }
    }
}

/// Models of a list of stored grants.
pub open spec fn grant_views(gs: Seq<Grant>) -> Seq<GrantView> {
    gs.map_values(|g: Grant| g@)
}

struct AppEntry {
    app_id: AppID,
    grants: Vec<Grant>,
}

/// Bounded in-memory grant store with an audit ring.
pub struct PolicyDB {
    apps: Vec<AppEntry>,
    audit_log: Vec<AuditEvent>,
    /// Next slot to overwrite once the ring is full; zero until then.
    audit_head: usize,
}

/// Canonical 32-byte form of a name.
pub fn canonical_name(b: &[u8]) -> (r: [u8; 32])
    ensures
        r@ == canonical(b@),
{
    let mut r = [0u8; 32];
    let n = if b.len() < NAME_MAX {
        b.len()
    } else {
        NAME_MAX
    };
    let mut i: usize = 0;
    while i < n
        invariant
            n <= b@.len(),
            n <= NAME_MAX,
            i <= n,
            r@.len() == 32,
            forall|k: int| 0 <= k < i ==> r@[k] == b@[k],
            forall|k: int| i <= k < 32 ==> r@[k] == 0,
        decreases n - i,
    {
        r[i] = b[i];
        i = i + 1;
    }
    assert(r@ =~= canonical(b@));
    r
}

/// Byte equality of two canonical names.
fn same_name(a: &[u8; 32], b: &[u8; 32]) -> (r: bool)
    ensures
        r == (a@ == b@),
{
    let mut i: usize = 0;
    while i < 32
        invariant
            i <= 32,
            a@.len() == 32,
            b@.len() == 32,
            forall|k: int| 0 <= k < i ==> a@[k] == b@[k],
        decreases 32 - i,
    {
        if a[i] != b[i] {
            return false;
        }
        i = i + 1;
    }
    assert(a@ =~= b@);
    true
}

/// Position of the first grant named `name`, if any.
fn find_grant(gs: &Vec<Grant>, name: &[u8; 32]) -> (r: Option<usize>)
    ensures
        r matches Some(j) ==> j == first_pos(names_of(grant_views(gs@)), name@) && j < gs@.len(),
        r is None ==> first_pos(names_of(grant_views(gs@)), name@) == gs@.len(),
{
    let ghost ns = names_of(grant_views(gs@));
    let mut j: usize = 0;
    while j < gs.len()
        invariant
            ns == names_of(grant_views(gs@)),
            ns.len() == gs@.len(),
            j <= gs@.len(),
            forall|k: int| 0 <= k < j ==> ns[k] != name@,
        decreases gs@.len() - j,
    {
        if same_name(&gs[j].cap_name, name) {
            proof {
                lemma_first_pos_at(ns, name@, j as int);
            }
            return Some(j);
        }
        j = j + 1;
    }
    proof {
        lemma_first_pos_at(ns, name@, j as int);
    }
    None
}

impl PolicyDB {
    /// The model of the store.
    pub closed spec fn view(&self) -> StoreView {
        StoreView {
            apps: self.apps@.map_values(
                |e: AppEntry| (e.app_id.0, grant_views(e.grants@)),
            ),
            audit: (self.audit_log@.subrange(self.audit_head as int, self.audit_log@.len() as int)
                + self.audit_log@.subrange(0, self.audit_head as int)).map_values(
                |e: AuditEvent| e@,
            ),
        }
    }

    /// Well-formed: the model's invariants, and the ring's bookkeeping.
    pub closed spec fn wf(&self) -> bool {
        &&& self.view().wf()
        &&& self.ring_ok()
    }

    /// The ring's bookkeeping.
    closed spec fn ring_ok(&self) -> bool {
        &&& self.audit_log@.len() <= AUDIT_SLOTS
        &&& self.audit_head < AUDIT_SLOTS
        &&& self.audit_log@.len() < AUDIT_SLOTS ==> self.audit_head == 0
    }

    /// An empty store.
    pub fn new() -> (r: Result<Self, Error>)
        ensures
            r matches Ok(db) && db.wf() && db.view().apps.len() == 0 && db.view().audit.len() == 0,
    {
        let db = PolicyDB { apps: Vec::new(), audit_log: Vec::new(), audit_head: 0 };
        proof {
            assert(db.view().apps =~= Seq::empty());
            assert(db.view().audit =~= Seq::empty());
        }
        Ok(db)
    }

    /// Append an audit event, overwriting the oldest once the ring is full.
    fn audit(&mut self, app_id: AppID, action: AuditAction, name: [u8; 32], success: bool, now: u64)
        requires
            old(self).ring_ok(),
        ensures
            final(self).ring_ok(),
            final(self).view() == old(self).view().audited(now, app_id.0, action, name@, success),
    {
        let e = AuditEvent { timestamp: now, app_id, action, cap_name: name, success };
        let ghost old_log = self.audit_log@;
        let ghost h = self.audit_head as int;
        if self.audit_log.len() < AUDIT_SLOTS {
            self.audit_log.push(e);
            proof {
                assert(self.audit_log@.subrange(0, self.audit_log@.len() as int) =~= old_log.push(e));
                assert(old_log.subrange(0, old_log.len() as int) =~= old_log);
                assert(self.audit_log@.subrange(0, 0) =~= Seq::<AuditEvent>::empty());
                assert(old_log.subrange(0, 0) =~= Seq::<AuditEvent>::empty());
                assert(old_log.push(e).map_values(|e: AuditEvent| e@) =~= old_log.map_values(
                    |e: AuditEvent| e@,
                ).push(e@));
            }
        } else {
            self.audit_log[self.audit_head] = e;
            self.audit_head = (self.audit_head + 1) % AUDIT_SLOTS;
            proof {
                let nl = self.audit_log@;
                let ov = old_log.subrange(h, old_log.len() as int) + old_log.subrange(0, h);
                let nv = nl.subrange(self.audit_head as int, nl.len() as int) + nl.subrange(
                    0,
                    self.audit_head as int,
                );
                assert(nv =~= ov.drop_first().push(e));
                let ovr = ov.map_values(|e: AuditEvent| e@);
                assert(ovr.push(e@).subrange(1, ovr.len() + 1 as int) =~= ovr.drop_first().push(e@));
                assert(nv.map_values(|e: AuditEvent| e@) =~= ovr.drop_first().push(e@));
            }
        }
    }

    /// Position of the entry for `app_id`, if any.
    fn find_app_index(&self, app_id: AppID) -> (r: Option<usize>)
        ensures
            r matches Some(i) ==> i == self.view().app_pos(app_id.0) && i < self.view().apps.len(),
            r is None ==> self.view().app_pos(app_id.0) == self.view().apps.len(),
    {
        let ghost ids = self.view().ids();
        let mut i: usize = 0;
        while i < self.apps.len()
            invariant
                ids == self.view().ids(),
                ids.len() == self.apps@.len(),
                i <= self.apps@.len(),
                forall|k: int| 0 <= k < i ==> ids[k] != app_id.0,
            decreases self.apps@.len() - i,
        {
            if self.apps[i].app_id.0 == app_id.0 {
                proof {
                    lemma_first_pos_at(ids, app_id.0, i as int);
                }
                return Some(i);
            }
            i = i + 1;
        }
        proof {
            lemma_first_pos_at(ids, app_id.0, i as int);
        }
        None
    }

    /// Position of the entry for `app_id`, creating an empty one if there is
    /// none and room for it.
    fn find_or_create_app(&mut self, app_id: AppID) -> (r: Result<usize, Error>)
        requires
            old(self).wf(),
        ensures
            final(self).audit_log == old(self).audit_log,
            final(self).audit_head == old(self).audit_head,
            old(self).view().app_pos(app_id.0) < old(self).view().apps.len() ==> r == Ok::<
                usize,
                Error,
            >(old(self).view().app_pos(app_id.0) as usize) && final(self).apps@ == old(self).apps@,
            old(self).view().app_pos(app_id.0) >= old(self).view().apps.len() && old(
                self,
            ).view().apps.len() < MAX_APPS ==> r == Ok::<usize, Error>(
                old(self).view().apps.len() as usize,
            ) && final(self).apps@.len() == old(self).apps@.len() + 1 && final(self).apps@.subrange(
                0,
                old(self).apps@.len() as int,
            ) == old(self).apps@ && final(self).apps@.last().app_id == app_id
                && final(self).apps@.last().grants@.len() == 0,
            old(self).view().app_pos(app_id.0) >= old(self).view().apps.len() && old(
                self,
            ).view().apps.len() >= MAX_APPS ==> r == Err::<usize, Error>(Error::NoMem)
                && final(self).apps@ == old(self).apps@,
    {
        if let Some(idx) = self.find_app_index(app_id) {
            return Ok(idx);
        }
        if self.apps.len() >= MAX_APPS {
            return Err(Error::NoMem);
        }
        self.apps.push(AppEntry { app_id, grants: Vec::new() });
        proof {
            assert(self.apps@.subrange(0, old(self).apps@.len() as int) =~= old(self).apps@);
        }
        Ok(self.apps.len() - 1)
    }

    /// Record a grant of `cap` to `app_id` at clock value `now` (ms), for
    /// `duration_secs` seconds or permanently (`None`). An existing grant of
    /// the same name is renewed; `NoMem` when the store or the application's
    /// entry is full.
    pub fn grant(&mut self, app_id: AppID, cap: &str, duration_secs: Option<u64>, now: u64) -> (r:
        Result<(), Error>)
        requires
            old(self).wf(),
        ensures
            final(self).wf(),
            (final(self).view(), r) == old(self).view().grant_model(
                app_id.0,
                utf8(cap),
                duration_secs,
                now,
            ),
    {
        let expires_at = match duration_secs {
            None => None,
            Some(secs) => {
                let span = if secs > u64::MAX / 1000 {
                    u64::MAX
                } else {
                    secs * 1000
                };
                Some(now.saturating_add(span))
            },
        };
        let name = canonical_name(cap.as_bytes());
        let g = Grant { cap_name: name, granted_at: now, expires_at, active: true };
        let ghost s0 = self.view();
        let ghost c = canonical(utf8(cap));
        proof {
            assert(expires_at == expiry(now, duration_secs));
            assert(g@ == GrantView { name: c, granted_at: now, expires_at: expiry(now, duration_secs), active: true });
            lemma_grant_model_wf(s0, app_id.0, utf8(cap), duration_secs, now);
            lemma_first_pos(s0.ids(), app_id.0);
        }
        let idx = self.find_or_create_app(app_id)?;
        assert(idx < self.apps@.len());
        let ghost gs = grant_views(self.apps@[idx as int].grants@);
        proof {
            if idx < s0.apps.len() {
                assert(gs == s0.apps[idx as int].1);
            } else {
                assert(gs =~= Seq::<GrantView>::empty());
            }
        }
        let found = find_grant(&self.apps[idx].grants, &name);
        match found {
            Some(j) => {
                self.apps[idx].grants[j] = g;
                proof {
                    assert(grant_views(self.apps@[idx as int].grants@) =~= gs.update(j as int, g@));
                    assert(self.view().apps =~= s0.apps.update(idx as int, (app_id.0, gs.update(j as int, g@))));
                }
            },
            None => {
                if self.apps[idx].grants.len() >= MAX_GRANTS_PER_APP {
                    return Err(Error::NoMem);
                }
                self.apps[idx].grants.push(g);
                proof {
                    if idx < s0.apps.len() {
                        assert(grant_views(self.apps@[idx as int].grants@) =~= gs.push(g@));
                        assert(self.view().apps =~= s0.apps.update(idx as int, (app_id.0, gs.push(g@))));
                    } else {
                        assert(grant_views(self.apps@[idx as int].grants@) =~= seq![g@]);
                        assert(self.view().apps =~= s0.apps.push((app_id.0, seq![g@])));
                    }
                }
            },
        }
        self.audit(app_id, AuditAction::Grant, name, true, now);
        Ok(())
    }

    /// Whether the grant named `name` of `app_id` is observable at `now`.
    fn check(&self, app_id: AppID, name: &[u8; 32], now: u64) -> (r: bool)
        ensures
            r == match self.view().lookup(app_id.0, name@) {
                Some(g) => live(g, now),
                None => false,
            },
    {
        match self.find_app_index(app_id) {
            None => false,
            Some(i) => {
                let ghost gs = grant_views(self.apps@[i as int].grants@);
                assert(gs == self.view().apps[i as int].1);
                match find_grant(&self.apps[i].grants, name) {
                    None => false,
                    Some(j) => {
                        let g = &self.apps[i].grants[j];
                        assert(g@ == gs[j as int]);
                        g.active && match g.expires_at {
                            None => true,
                            Some(e) => now < e,
                        }
                    },
                }
            },
        }
    }

    /// Whether `app_id` holds `cap` at clock value `now` (ms): an active
    /// grant of that name that has not expired. Audits the query.
    pub fn is_granted(&mut self, app_id: AppID, cap: &str, now: u64) -> (r: Result<bool, Error>)
        requires
            old(self).wf(),
        ensures
            final(self).wf(),
            r == Ok::<bool, Error>(old(self).view().granted(app_id.0, utf8(cap), now)),
            final(self).view() == old(self).view().query_model(app_id.0, utf8(cap), now),
    {
        let name = canonical_name(cap.as_bytes());
        let granted = self.check(app_id, &name, now);
        proof {
            lemma_audited_wf(self.view(), now, app_id.0, AuditAction::Query, name@, granted);
        }
        self.audit(app_id, AuditAction::Query, name, granted, now);
        Ok(granted)
    }

    /// Whether `cap` is not (or no longer) held by `app_id` at `now`: no such
    /// grant, revoked, or expired.
    pub fn is_expired(&self, app_id: AppID, cap: &str, now: u64) -> (r: Result<bool, Error>)
        ensures
            r == Ok::<bool, Error>(!self.view().granted(app_id.0, utf8(cap), now)),
    {
        let name = canonical_name(cap.as_bytes());
        Ok(!self.check(app_id, &name, now))
    }

    /// Tombstone the active grant of `cap` held by `app_id`, auditing it; a
    /// no-op when there is none. Never fails.
    pub fn revoke(&mut self, app_id: AppID, cap: &str, now: u64) -> (r: Result<(), Error>)
        requires
            old(self).wf(),
        ensures
            final(self).wf(),
            r == Ok::<(), Error>(()),
            final(self).view() == old(self).view().revoke_model(app_id.0, utf8(cap), now),
    {
        let name = canonical_name(cap.as_bytes());
        let ghost s0 = self.view();
        proof {
            lemma_revoke_model_wf(s0, app_id.0, utf8(cap), now);
        }
        let idx = match self.find_app_index(app_id) {
            None => return Ok(()),
            Some(i) => i,
        };
        let ghost gs = grant_views(self.apps@[idx as int].grants@);
        assert(gs == s0.apps[idx as int].1);
        match find_grant(&self.apps[idx].grants, &name) {
            None => {},
            Some(j) => {
                if self.apps[idx].grants[j].active {
                    self.apps[idx].grants[j].active = false;
                    proof {
                        let g2 = GrantView { active: false, ..gs[j as int] };
                        lemma_first_pos(s0.ids(), app_id.0);
                        assert(s0.ids()[idx as int] == s0.apps[idx as int].0);
                        assert(grant_views(self.apps@[idx as int].grants@) =~= gs.update(j as int, g2));
                        assert(self.view().apps =~= s0.apps.update(idx as int, (app_id.0, gs.update(j as int, g2))));
                    }
                    self.audit(app_id, AuditAction::Revoke, name, true, now);
                }
            },
        }
        Ok(())
    }

    /// Record that `app_id` was refused `cap`.
    pub fn log_denial(&mut self, app_id: AppID, cap: &str, now: u64)
        requires
            old(self).wf(),
        ensures
            final(self).wf(),
            final(self).view() == old(self).view().audited(
                now,
                app_id.0,
                AuditAction::Deny,
                canonical(utf8(cap)),
                false,
            ),
    {
        let name = canonical_name(cap.as_bytes());
        proof {
            lemma_audited_wf(self.view(), now, app_id.0, AuditAction::Deny, name@, false);
        }
        self.audit(app_id, AuditAction::Deny, name, false, now);
    }

    /// The most recent `count` audit events (all of them if fewer were
    /// kept), oldest first.
    pub fn get_recent_events(&self, count: usize) -> (r: Vec<AuditEvent>)
        requires
            self.wf(),
        ensures
            r@.map_values(|e: AuditEvent| e@) == keep_last(self.view().audit, count as nat),
    {
        let len = self.audit_log.len();
        let k = if count < len {
            count
        } else {
            len
        };
        let ghost v = self.audit_log@.subrange(self.audit_head as int, len as int)
            + self.audit_log@.subrange(0, self.audit_head as int);
        assert(v.len() == len);
        let mut out: Vec<AuditEvent> = Vec::new();
        let mut p: usize = len - k;
        while p < len
            invariant
                len == self.audit_log@.len(),
                self.ring_ok(),
                v == self.audit_log@.subrange(self.audit_head as int, len as int)
                    + self.audit_log@.subrange(0, self.audit_head as int),
                v.len() == len,
                k <= len,
                len - k <= p <= len,
                out@ == v.subrange(len - k, p as int),
            decreases len - p,
        {
            let phys = if self.audit_head + p < len {
                self.audit_head + p
            } else {
                self.audit_head + p - len
            };
            assert(self.audit_log@[phys as int] == v[p as int]);
            out.push(self.audit_log[phys]);
            assert(out@ =~= v.subrange(len - k, p + 1));
            p = p + 1;
        }
        proof {
            let m = |e: AuditEvent| e@;
            assert(out@.map_values(m) =~= keep_last(v.map_values(m), count as nat));
        }
        out
    }

    /// Canonical names of the grants `app_id` holds at `now`, in insertion
    /// order.
    pub fn active_names(&self, app_id: AppID, now: u64) -> (r: Vec<[u8; 32]>)
        ensures
            name_views(r@) == self.view().live_names(app_id.0, now),
    {
        let mut out: Vec<[u8; 32]> = Vec::new();
        let i = match self.find_app_index(app_id) {
            None => {
                assert(name_views(out@) =~= Seq::<Seq<u8>>::empty());
                return out;
            },
            Some(i) => i,
        };
        let gs = &self.apps[i].grants;
        let ghost gv = grant_views(gs@);
        assert(gv == self.view().apps[i as int].1);
        let mut k: usize = 0;
        while k < gs.len()
            invariant
                gv == grant_views(gs@),
                k <= gs@.len(),
                name_views(out@) == live_names_of(gv.subrange(0, k as int), now),
            decreases gs@.len() - k,
        {
            let g = &gs[k];
            let is_live = g.active && match g.expires_at {
                None => true,
                Some(e) => now < e,
            };
            proof {
                let sub = gv.subrange(0, k + 1);
                assert(sub.drop_last() =~= gv.subrange(0, k as int));
                assert(sub.last() == g@);
            }
            if is_live {
                out.push(g.cap_name);
                assert(name_views(out@) =~= live_names_of(gv.subrange(0, k as int), now).push(g.cap_name@));
            }
            k = k + 1;
        }
        assert(gv.subrange(0, gs@.len() as int) =~= gv);
        out
    }
}

} // verus!
