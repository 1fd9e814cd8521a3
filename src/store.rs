use vstd::prelude::*;
use crate::error::Error;
use crate::names::canonical;

verus! {

/// Most grants one application can hold.
pub const MAX_GRANTS_PER_APP: usize = 32;
/// Most applications the store tracks.
pub const MAX_APPS: usize = 128;
/// Slots of the audit ring.
pub const AUDIT_SLOTS: usize = 64;

/// Kind of an audited event.
#[derive(Debug, Clone, Copy, PartialEq, Eq, Structural)]
pub enum AuditAction {
    Grant,
    Revoke,
    Deny,
    Query,
}

/// A grant as the store's model sees it; `name` is the canonical 32-byte form.
pub struct GrantView {
    pub name: Seq<u8>,
    pub granted_at: u64,
    /// `None`: permanent.
    pub expires_at: Option<u64>,
    pub active: bool,
}

/// An audited event as the store's model sees it.
pub struct AuditRecord {
    pub timestamp: u64,
    pub app: u64,
    pub action: AuditAction,
    pub name: Seq<u8>,
    pub success: bool,
}

/// The grant store: for each known application, in order of first grant,
/// its grants in order of insertion; and the audit log, oldest first.
pub struct StoreView {
    pub apps: Seq<(u64, Seq<GrantView>)>,
    pub audit: Seq<AuditRecord>,
}

/// Index of the first occurrence of `x` in `s`, or `s.len()` if none.
pub open spec fn first_pos<A>(s: Seq<A>, x: A) -> int
    decreases s.len(),
{
    if s.len() == 0 {
        0
    } else if s[0] == x {
        0
    } else {
        1 + first_pos(s.drop_first(), x)
    }
}

/// What `first_pos` returns: the first index holding `x`, or the length.
pub proof fn lemma_first_pos<A>(s: Seq<A>, x: A)
    ensures
        0 <= first_pos(s, x) <= s.len(),
        forall|k: int| 0 <= k < first_pos(s, x) ==> s[k] != x,
        first_pos(s, x) < s.len() ==> s[first_pos(s, x)] == x,
        first_pos(s, x) == s.len() <==> !s.contains(x),
    decreases s.len(),
{
    if s.len() > 0 && s[0] != x {
        lemma_first_pos(s.drop_first(), x);
        assert forall|k: int| 0 <= k < first_pos(s, x) implies s[k] != x by {
            if k > 0 {
                assert(s[k] == s.drop_first()[k - 1]);
            }
        }
        if first_pos(s, x) == s.len() {
            assert forall|k: int| 0 <= k < s.len() implies s[k] != x by {
                if k > 0 {
                    assert(s[k] == s.drop_first()[k - 1]);
                }
            }
        } else {
            assert(s[first_pos(s, x)] == s.drop_first()[first_pos(s, x) - 1]);
        }
    }
}

/// A position `i` with no `x` before it and `x` at it (or the end) is
/// `first_pos`.
pub proof fn lemma_first_pos_at<A>(s: Seq<A>, x: A, i: int)
    requires
        0 <= i <= s.len(),
        forall|k: int| 0 <= k < i ==> s[k] != x,
        i < s.len() ==> s[i] == x,
    ensures
        first_pos(s, x) == i,
{
    lemma_first_pos(s, x);
    let p = first_pos(s, x);
    if p < i {
        assert(s[p] == x);
    } else if i < p {
        assert(s[i] != x);
    }
}

/// `first_pos` after appending an element.
pub proof fn lemma_first_pos_push<A>(s: Seq<A>, x: A, y: A)
    ensures
        first_pos(s, x) < s.len() ==> first_pos(s.push(y), x) == first_pos(s, x),
        first_pos(s, x) == s.len() && y == x ==> first_pos(s.push(y), x) == s.len(),
        first_pos(s, x) == s.len() && y != x ==> first_pos(s.push(y), x) == s.len() + 1,
{
    lemma_first_pos(s, x);
    let t = s.push(y);
    assert forall|k: int| 0 <= k < s.len() implies t[k] == s[k] by {}
    if first_pos(s, x) < s.len() {
        lemma_first_pos_at(t, x, first_pos(s, x));
    } else if y == x {
        lemma_first_pos_at(t, x, s.len() as int);
    } else {
        lemma_first_pos_at(t, x, (s.len() + 1) as int);
    }
}

/// Canonical names of a list of grants.
pub open spec fn names_of(gs: Seq<GrantView>) -> Seq<Seq<u8>> {
    gs.map_values(|g: GrantView| g.name)
}

/// Expiry of a grant made at `now` for `d` seconds (`None`: permanent);
/// clock values are milliseconds and saturate at the largest value.
pub open spec fn expiry(now: u64, d: Option<u64>) -> Option<u64> {
    match d {
        None => None,
        Some(secs) => Some(
            if now + secs * 1000 > u64::MAX {
                u64::MAX
            } else {
                (now + secs * 1000) as u64
            },
        ),
    }
}

/// A stored grant is sound: its name is in canonical 32-byte form and it
/// does not expire before it was granted.
pub open spec fn grant_ok(g: GrantView) -> bool {
    &&& g.name.len() == 32
    &&& match g.expires_at {
        Some(e) => g.granted_at <= e,
        None => true,
    }
}

/// Every grant of the list is sound.
pub open spec fn grants_ok(gs: Seq<GrantView>) -> bool {
    forall|j: int| 0 <= j < gs.len() ==> grant_ok(#[trigger] gs[j])
}

/// A grant is observable as granted at `now` iff it is active and not past
/// its expiry.
pub open spec fn live(g: GrantView, now: u64) -> bool {
    g.active && match g.expires_at {
        None => true,
        Some(e) => now < e,
    }
}

/// Names of the grants in `gs` that are live at `now`, in order.
pub open spec fn live_names_of(gs: Seq<GrantView>, now: u64) -> Seq<Seq<u8>>
    decreases gs.len(),
{
    if gs.len() == 0 {
        Seq::empty()
    } else if live(gs.last(), now) {
        live_names_of(gs.drop_last(), now).push(gs.last().name)
    } else {
        live_names_of(gs.drop_last(), now)
    }
}

/// The log after one more write: the ring keeps the newest `AUDIT_SLOTS`.
pub open spec fn log_push(log: Seq<AuditRecord>, r: AuditRecord) -> Seq<AuditRecord> {
    keep_last(log.push(r), AUDIT_SLOTS as nat)
}

/// The last `m` elements of `s` (all of them if fewer).
pub open spec fn keep_last<A>(s: Seq<A>, m: nat) -> Seq<A> {
    if s.len() <= m {
        s
    } else {
        s.subrange(s.len() - m, s.len() as int)
    }
}

impl StoreView {
    /// Identities of the known applications, in order.
    pub open spec fn ids(self) -> Seq<u64> {
        self.apps.map_values(|e: (u64, Seq<GrantView>)| e.0)
    }

    /// Position of the entry for `id`, or the number of entries.
    pub open spec fn app_pos(self, id: u64) -> int {
        first_pos(self.ids(), id)
    }

    /// The grant named `c` (canonical form) held by `id`, if any.
    pub open spec fn lookup(self, id: u64, c: Seq<u8>) -> Option<GrantView> {
        let i = self.app_pos(id);
        if i < self.apps.len() {
            let gs = self.apps[i].1;
            let j = first_pos(names_of(gs), c);
            if j < gs.len() {
                Some(gs[j])
            } else {
                None
            }
        } else {
            None
        }
    }

    /// Whether `id` currently holds the capability named `n` at time `now`.
    pub open spec fn granted(self, id: u64, n: Seq<u8>, now: u64) -> bool {
        match self.lookup(id, canonical(n)) {
            Some(g) => live(g, now),
            None => false,
        }
    }

    /// Canonical names of the grants `id` holds at `now`, in insertion order.
    pub open spec fn live_names(self, id: u64, now: u64) -> Seq<Seq<u8>> {
        let i = self.app_pos(id);
        if i < self.apps.len() {
            live_names_of(self.apps[i].1, now)
        } else {
            Seq::empty()
        }
    }

    /// Bounds and uniqueness: at most one entry per identity, at most one
    /// grant per name within an entry, and the fixed capacities.
    pub open spec fn wf(self) -> bool {
        &&& self.apps.len() <= MAX_APPS
        &&& self.ids().no_duplicates()
        &&& forall|i: int|
            0 <= i < self.apps.len() ==> {
                &&& (#[trigger] self.apps[i]).1.len() <= MAX_GRANTS_PER_APP
                &&& names_of(self.apps[i].1).no_duplicates()
                &&& grants_ok(self.apps[i].1)
            }
        &&& self.audit.len() <= AUDIT_SLOTS
    }

    /// The store after an audit write.
    pub open spec fn audited(
        self,
        now: u64,
        id: u64,
        action: AuditAction,
        c: Seq<u8>,
        success: bool,
    ) -> StoreView {
        StoreView {
            apps: self.apps,
            audit: log_push(
                self.audit,
                AuditRecord { timestamp: now, app: id, action, name: c, success },
            ),
        }
    }

    /// `grant(id, n, d)` at time `now`: renew the grant of that name or
    /// append a new one, creating the application's entry if needed; `NoMem`
    /// when the entry or the store is full. Audited on success.
    pub open spec fn grant_model(self, id: u64, n: Seq<u8>, d: Option<u64>, now: u64) -> (
        StoreView,
        Result<(), Error>,
    ) {
        let c = canonical(n);
        let g = GrantView { name: c, granted_at: now, expires_at: expiry(now, d), active: true };
        let i = self.app_pos(id);
        if i < self.apps.len() {
            let gs = self.apps[i].1;
            let j = first_pos(names_of(gs), c);
            if j < gs.len() {
                (
                    StoreView { apps: self.apps.update(i, (id, gs.update(j, g))), audit: self.audit }.audited(
                        now,
                        id,
                        AuditAction::Grant,
                        c,
                        true,
                    ),
                    Ok(()),
                )
            } else if gs.len() < MAX_GRANTS_PER_APP {
                (
                    StoreView { apps: self.apps.update(i, (id, gs.push(g))), audit: self.audit }.audited(
                        now,
                        id,
                        AuditAction::Grant,
                        c,
                        true,
                    ),
                    Ok(()),
                )
            } else {
                (self, Err(Error::NoMem))
            }
        } else if self.apps.len() < MAX_APPS {
            (
                StoreView { apps: self.apps.push((id, seq![g])), audit: self.audit }.audited(
                    now,
                    id,
                    AuditAction::Grant,
                    c,
                    true,
                ),
                Ok(()),
            )
        } else {
            (self, Err(Error::NoMem))
        }
    }

    /// `revoke(id, n)` at time `now`: tombstone an active grant of that name
    /// and audit it; otherwise nothing changes.
    pub open spec fn revoke_model(self, id: u64, n: Seq<u8>, now: u64) -> StoreView {
        let c = canonical(n);
        let i = self.app_pos(id);
        if i < self.apps.len() {
            let gs = self.apps[i].1;
            let j = first_pos(names_of(gs), c);
            if j < gs.len() && gs[j].active {
                StoreView {
                    apps: self.apps.update(i, (id, gs.update(j, GrantView { active: false, ..gs[j] }))),
                    audit: self.audit,
                }.audited(now, id, AuditAction::Revoke, c, true)
            } else {
                self
            }
        } else {
            self
        }
    }

    /// `is_granted(id, n)` at time `now`: the answer, with a query audited.
    pub open spec fn query_model(self, id: u64, n: Seq<u8>, now: u64) -> StoreView {
        self.audited(now, id, AuditAction::Query, canonical(n), self.granted(id, n, now))
    }
}

/// Appending an element that is absent keeps a sequence duplicate-free.
pub proof fn lemma_push_no_duplicates<A>(s: Seq<A>, x: A)
    requires
        s.no_duplicates(),
        !s.contains(x),
    ensures
        s.push(x).no_duplicates(),
{
    let t = s.push(x);
    assert forall|a: int, b: int| 0 <= a < t.len() && 0 <= b < t.len() && a != b implies t[a]
        != t[b] by {
        if a < s.len() && b < s.len() {
            assert(t[a] == s[a] && t[b] == s[b]);
        } else if a < s.len() {
            assert(t[a] == s[a]);
        } else if b < s.len() {
            assert(t[b] == s[b]);
        }
    }
}

/// Keeping the last `m` leaves at most `m`.
pub proof fn lemma_keep_last_len<A>(s: Seq<A>, m: nat)
    ensures
        keep_last(s, m).len() <= m,
        keep_last(s, m).len() == if s.len() <= m { s.len() } else { m },
{
}

/// An audit write keeps the store well-formed.
pub proof fn lemma_audited_wf(
    s: StoreView,
    now: u64,
    id: u64,
    action: AuditAction,
    c: Seq<u8>,
    success: bool,
)
    requires
        s.wf(),
    ensures
        s.audited(now, id, action, c, success).wf(),
{
    let r = AuditRecord { timestamp: now, app: id, action, name: c, success };
    lemma_keep_last_len(s.audit.push(r), AUDIT_SLOTS as nat);
    assert(s.audited(now, id, action, c, success).ids() =~= s.ids());
}

/// Replacing the grants of the entry at `i` (same identity) by `gs2`, which
/// is within bounds and duplicate-free, keeps the store well-formed.
pub proof fn lemma_replace_grants_wf(s: StoreView, i: int, gs2: Seq<GrantView>)
    requires
        s.wf(),
        0 <= i < s.apps.len(),
        gs2.len() <= MAX_GRANTS_PER_APP,
        names_of(gs2).no_duplicates(),
        grants_ok(gs2),
    ensures
        (StoreView { apps: s.apps.update(i, (s.apps[i].0, gs2)), audit: s.audit }).wf(),
{
    let t = StoreView { apps: s.apps.update(i, (s.apps[i].0, gs2)), audit: s.audit };
    assert(t.ids() =~= s.ids());
    assert forall|k: int| 0 <= k < t.apps.len() implies {
        &&& (#[trigger] t.apps[k]).1.len() <= MAX_GRANTS_PER_APP
        &&& names_of(t.apps[k].1).no_duplicates()
        &&& grants_ok(t.apps[k].1)
    } by {
        if k != i {
            assert(t.apps[k] == s.apps[k]);
        }
    }
}

/// A grant keeps the store well-formed.
pub proof fn lemma_grant_model_wf(s: StoreView, id: u64, n: Seq<u8>, d: Option<u64>, now: u64)
    requires
        s.wf(),
    ensures
        s.grant_model(id, n, d, now).0.wf(),
{
    let c = canonical(n);
    let g = GrantView { name: c, granted_at: now, expires_at: expiry(now, d), active: true };
    let i = s.app_pos(id);
    lemma_first_pos(s.ids(), id);
    if i < s.apps.len() {
        assert(s.ids()[i] == s.apps[i].0);
        let gs = s.apps[i].1;
        let j = first_pos(names_of(gs), c);
        lemma_first_pos(names_of(gs), c);
        if j < gs.len() {
            assert(names_of(gs.update(j, g)) =~= names_of(gs));
            assert(grants_ok(gs.update(j, g)));
            lemma_replace_grants_wf(s, i, gs.update(j, g));
            let t = StoreView { apps: s.apps.update(i, (id, gs.update(j, g))), audit: s.audit };
            lemma_audited_wf(t, now, id, AuditAction::Grant, c, true);
        } else if gs.len() < MAX_GRANTS_PER_APP {
            assert(names_of(gs.push(g)) =~= names_of(gs).push(c));
            lemma_push_no_duplicates(names_of(gs), c);
            assert(grants_ok(gs.push(g)));
            lemma_replace_grants_wf(s, i, gs.push(g));
            let t = StoreView { apps: s.apps.update(i, (id, gs.push(g))), audit: s.audit };
            lemma_audited_wf(t, now, id, AuditAction::Grant, c, true);
        }
    } else if s.apps.len() < MAX_APPS {
        let t = StoreView { apps: s.apps.push((id, seq![g])), audit: s.audit };
        assert(t.ids() =~= s.ids().push(id));
        lemma_push_no_duplicates(s.ids(), id);
        assert(names_of(seq![g]) =~= seq![c]);
        assert(grants_ok(seq![g]));
        assert forall|k: int| 0 <= k < t.apps.len() implies {
            &&& (#[trigger] t.apps[k]).1.len() <= MAX_GRANTS_PER_APP
            &&& names_of(t.apps[k].1).no_duplicates()
            &&& grants_ok(t.apps[k].1)
        } by {
            if k < s.apps.len() {
                assert(t.apps[k] == s.apps[k]);
            }
        }
        lemma_audited_wf(t, now, id, AuditAction::Grant, c, true);
    }
}

/// A revoke keeps the store well-formed.
pub proof fn lemma_revoke_model_wf(s: StoreView, id: u64, n: Seq<u8>, now: u64)
    requires
        s.wf(),
    ensures
        s.revoke_model(id, n, now).wf(),
{
    let c = canonical(n);
    let i = s.app_pos(id);
    lemma_first_pos(s.ids(), id);
    if i < s.apps.len() {
        assert(s.ids()[i] == s.apps[i].0);
        let gs = s.apps[i].1;
        let j = first_pos(names_of(gs), c);
        lemma_first_pos(names_of(gs), c);
        if j < gs.len() && gs[j].active {
            let g2 = GrantView { active: false, ..gs[j] };
            assert(names_of(gs.update(j, g2)) =~= names_of(gs));
            assert(grant_ok(gs[j]));
            assert(grants_ok(gs.update(j, g2)));
            lemma_replace_grants_wf(s, i, gs.update(j, g2));
            let t = StoreView { apps: s.apps.update(i, (id, gs.update(j, g2))), audit: s.audit };
            lemma_audited_wf(t, now, id, AuditAction::Revoke, c, true);
        }
    }
}

/// The grant that a successful `grant(id, n, d)` at `now` leaves in place.
pub open spec fn fresh_grant(n: Seq<u8>, d: Option<u64>, now: u64) -> GrantView {
    GrantView { name: canonical(n), granted_at: now, expires_at: expiry(now, d), active: true }
}

/// Replacing, in the entry of `id`, the first grant named `c` by `g2` (also
/// named `c`) makes `g2` what a lookup of `c` finds.
pub proof fn lemma_lookup_replaced(s: StoreView, id: u64, c: Seq<u8>, g2: GrantView)
    requires
        s.lookup(id, c) is Some,
        g2.name == c,
    ensures
        ({
            let i = s.app_pos(id);
            let gs = s.apps[i].1;
            let j = first_pos(names_of(gs), c);
            let t = StoreView { apps: s.apps.update(i, (id, gs.update(j, g2))), audit: s.audit };
            &&& t.ids() == s.ids()
            &&& t.app_pos(id) == i
            &&& t.lookup(id, c) == Some(g2)
        }),
{
    let i = s.app_pos(id);
    lemma_first_pos(s.ids(), id);
    assert(s.ids()[i] == s.apps[i].0);
    let gs = s.apps[i].1;
    let j = first_pos(names_of(gs), c);
    lemma_first_pos(names_of(gs), c);
    let t = StoreView { apps: s.apps.update(i, (id, gs.update(j, g2))), audit: s.audit };
    assert(t.ids() =~= s.ids());
    assert(names_of(gs.update(j, g2)) =~= names_of(gs));
}

/// After a successful grant, a lookup finds the fresh grant.
pub proof fn lemma_lookup_after_grant(s: StoreView, id: u64, n: Seq<u8>, d: Option<u64>, now: u64)
    requires
        s.grant_model(id, n, d, now).1 is Ok,
    ensures
        s.grant_model(id, n, d, now).0.lookup(id, canonical(n)) == Some(fresh_grant(n, d, now)),
{
    let c = canonical(n);
    let g = fresh_grant(n, d, now);
    let i = s.app_pos(id);
    lemma_first_pos(s.ids(), id);
    if i < s.apps.len() {
        assert(s.ids()[i] == s.apps[i].0);
        let gs = s.apps[i].1;
        let j = first_pos(names_of(gs), c);
        lemma_first_pos(names_of(gs), c);
        if j < gs.len() {
            lemma_lookup_replaced(s, id, c, g);
        } else {
            let t = StoreView { apps: s.apps.update(i, (id, gs.push(g))), audit: s.audit };
            assert(t.ids() =~= s.ids());
            assert(names_of(gs.push(g)) =~= names_of(gs).push(c));
            lemma_first_pos_push(names_of(gs), c, c);
        }
    } else {
        let t = StoreView { apps: s.apps.push((id, seq![g])), audit: s.audit };
        assert(t.ids() =~= s.ids().push(id));
        lemma_first_pos_push(s.ids(), id, id);
        assert(names_of(seq![g]) =~= seq![c]);
        lemma_first_pos_at(seq![c], c, 0);
    }
}

/// Once `grant(id, n, d)` has succeeded at `t0`, `id` holds `n` at every
/// later moment `t1` before the expiry (always, for a permanent grant).
pub proof fn granted_until_expiry(
    s: StoreView,
    id: u64,
    n: Seq<u8>,
    d: Option<u64>,
    t0: u64,
    t1: u64,
)
    requires
        s.grant_model(id, n, d, t0).1 is Ok,
        t0 <= t1,
        match expiry(t0, d) {
            None => true,
            Some(e) => t1 < e,
        },
    ensures
        s.grant_model(id, n, d, t0).0.granted(id, n, t1),
{
    lemma_lookup_after_grant(s, id, n, d, t0);
}

/// A timed grant lapses by itself: once the clock reaches `t0 + d` seconds,
/// `id` no longer holds `n`, without any revoke.
pub proof fn grant_lapses_after_duration(
    s: StoreView,
    id: u64,
    n: Seq<u8>,
    secs: u64,
    t0: u64,
    t1: u64,
)
    requires
        s.grant_model(id, n, Some(secs), t0).1 is Ok,
        t1 >= t0 + secs * 1000,
    ensures
        !s.grant_model(id, n, Some(secs), t0).0.granted(id, n, t1),
{
    lemma_lookup_after_grant(s, id, n, Some(secs), t0);
}

/// After `revoke(id, n)`, `id` does not hold `n`, whatever the clock says.
pub proof fn revoked_is_not_granted(s: StoreView, id: u64, n: Seq<u8>, now: u64, t: u64)
    ensures
        !s.revoke_model(id, n, now).granted(id, n, t),
{
    let c = canonical(n);
    let i = s.app_pos(id);
    lemma_first_pos(s.ids(), id);
    if i < s.apps.len() {
        let gs = s.apps[i].1;
        let j = first_pos(names_of(gs), c);
        lemma_first_pos(names_of(gs), c);
        if j < gs.len() && gs[j].active {
            assert(names_of(gs)[j] == gs[j].name);
            lemma_lookup_replaced(s, id, c, GrantView { active: false, ..gs[j] });
        }
    }
}

/// A second revoke of the same name changes nothing (and, like every
/// revoke, succeeds).
pub proof fn revoke_is_idempotent(s: StoreView, id: u64, n: Seq<u8>, t1: u64, t2: u64)
    ensures
        s.revoke_model(id, n, t1).revoke_model(id, n, t2) == s.revoke_model(id, n, t1),
{
    let c = canonical(n);
    let s1 = s.revoke_model(id, n, t1);
    let i = s.app_pos(id);
    lemma_first_pos(s.ids(), id);
    if i < s.apps.len() {
        let gs = s.apps[i].1;
        let j = first_pos(names_of(gs), c);
        lemma_first_pos(names_of(gs), c);
        if j < gs.len() && gs[j].active {
            assert(names_of(gs)[j] == gs[j].name);
            let g2 = GrantView { active: false, ..gs[j] };
            lemma_lookup_replaced(s, id, c, g2);
            let gs1 = s1.apps[i].1;
            assert(s1.apps == s.apps.update(i, (id, gs.update(j, g2))));
            assert(gs1 == gs.update(j, g2));
            assert(names_of(gs1) =~= names_of(gs));
            assert(s1.ids() =~= s.ids());
            assert(!gs1[j].active);
        }
    }
}

/// Granting the same name twice leaves a single record of it: the second
/// grant adds no entry and no grant, names stay unique, and the record
/// found is the second one.
pub proof fn second_grant_renews(
    s: StoreView,
    id: u64,
    n: Seq<u8>,
    d: Option<u64>,
    t1: u64,
    t2: u64,
)
    requires
        s.wf(),
        s.grant_model(id, n, d, t1).1 is Ok,
    ensures
        ({
            let s1 = s.grant_model(id, n, d, t1).0;
            let (s2, r2) = s1.grant_model(id, n, d, t2);
            let i = s1.app_pos(id);
            &&& r2 is Ok
            &&& s2.wf()
            &&& s2.apps.len() == s1.apps.len()
            &&& i < s1.apps.len()
            &&& s2.apps[i].1.len() == s1.apps[i].1.len()
            &&& s2.lookup(id, canonical(n)) == Some(fresh_grant(n, d, t2))
        }),
{
    let c = canonical(n);
    let s1 = s.grant_model(id, n, d, t1).0;
    lemma_grant_model_wf(s, id, n, d, t1);
    lemma_lookup_after_grant(s, id, n, d, t1);
    lemma_grant_model_wf(s1, id, n, d, t2);
    lemma_lookup_after_grant(s1, id, n, d, t2);
    let i = s1.app_pos(id);
    lemma_first_pos(s1.ids(), id);
    let gs = s1.apps[i].1;
    lemma_first_pos(names_of(gs), c);
    assert(names_of(gs)[first_pos(names_of(gs), c)] == gs[first_pos(names_of(gs), c)].name);
    lemma_lookup_replaced(s1, id, c, fresh_grant(n, d, t2));
}

/// The audit log after writing `es` in order, starting from `log`.
pub open spec fn log_after(log: Seq<AuditRecord>, es: Seq<AuditRecord>) -> Seq<AuditRecord>
    decreases es.len(),
{
    if es.len() == 0 {
        log
    } else {
        log_after(log_push(log, es[0]), es.drop_first())
    }
}

/// Trimming to the last `m` first does not change the last `m` of a longer
/// sequence.
pub proof fn lemma_keep_last_concat<A>(a: Seq<A>, b: Seq<A>, m: nat)
    ensures
        keep_last(keep_last(a, m) + b, m) == keep_last(a + b, m),
{
    if a.len() > m {
        let a2 = keep_last(a, m);
        let x = keep_last(a2 + b, m);
        let y = keep_last(a + b, m);
        assert(x.len() == y.len());
        assert forall|k: int| 0 <= k < x.len() implies x[k] == y[k] by {
            let q = b.len() - m + k;
            if q >= 0 {
                assert(x[k] == b[q]);
                assert(y[k] == b[q]);
            } else {
                assert(x[k] == a2[m + q]);
                assert(y[k] == a[a.len() + q]);
            }
        }
        assert(x =~= y);
    }
}

/// However many events are written, the ring holds exactly the
/// `AUDIT_SLOTS` most recent of them (all, while fewer were written).
pub proof fn audit_keeps_most_recent(log: Seq<AuditRecord>, es: Seq<AuditRecord>)
    requires
        log.len() <= AUDIT_SLOTS,
    ensures
        log_after(log, es) == keep_last(log + es, AUDIT_SLOTS as nat),
    decreases es.len(),
{
    if es.len() == 0 {
        assert(log + es =~= log);
    } else {
        let l1 = log_push(log, es[0]);
        lemma_keep_last_len(log.push(es[0]), AUDIT_SLOTS as nat);
        audit_keeps_most_recent(l1, es.drop_first());
        lemma_keep_last_concat(log.push(es[0]), es.drop_first(), AUDIT_SLOTS as nat);
        assert(log.push(es[0]) + es.drop_first() =~= log + es);
    }
}

} // verus!
