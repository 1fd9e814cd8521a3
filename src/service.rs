use vstd::prelude::*;
use crate::auth::AppID;
use crate::db::PolicyDB;
use crate::delegation::{
    calculate_attenuated_rights, forbidden_names_are_denied, is_forbidden, is_path_scoped,
    path_scoped_spec, resolve_spec,
    resolve_system_capability, rights_spec, Rights, APP_DELEGATION_SLOT,
};
use crate::error::Error;
use crate::names::{canonical, utf8};
use crate::risk::{assess_risk, duration_of, risk_of, RiskLevel};
use crate::store::{revoked_is_not_granted, AuditAction, StoreView};
use crate::wire::{list_bytes, list_payload, name_text, null_terminated_str, Request, Response};

verus! {

/// Where the handling of one request stands.
#[derive(Debug, Clone, Copy, PartialEq, Eq, Structural)]
pub enum Phase {
    /// Waiting for the kernel to confirm the sender's badge.
    Authenticating,
    /// Waiting for the hardware-presence attestation of a critical request.
    AwaitingPresence { risk: RiskLevel },
    /// Waiting for the user's answer to the secure prompt.
    AwaitingConsent { risk: RiskLevel },
    /// Waiting for a path-restricted child of `slot` to be minted.
    Minting { slot: usize, rights: Rights, fresh: bool, single_use: bool },
    /// Waiting for the transfer into the application's table; `minted` is
    /// the child to destroy if it fails.
    Transferring { minted: Option<usize>, rights: Rights, fresh: bool, single_use: bool },
    /// Waiting for a minted child to be destroyed after a failed transfer.
    Cleaning { error: Error },
    /// Waiting for the kernel to revoke the application's delegation slot.
    Revoking,
    /// The reply has been decided.
    Finished,
}

/// One request in progress: who sent it, what it asks, where it stands.
#[derive(Debug, Clone, Copy)]
pub struct Session {
    pub badge: u64,
    pub request: Request,
    pub phase: Phase,
}

/// What the service loop reports back after performing a `Step`.
#[derive(Debug, Clone, Copy)]
pub enum Outcome {
    /// The kernel did (`true`) or did not confirm the badge.
    Verified(bool),
    /// Physical presence was (`true`) or was not attested.
    Presence(bool),
    /// The user approved (`true`); denial, timeout and cancellation are `false`.
    Consent(bool),
    /// The new child slot, or the kernel's error.
    Minted(Result<usize, Error>),
    Transferred(Result<(), Error>),
    Deleted,
    KernelRevoked(Result<(), Error>),
}

/// What the service loop must do next.
#[derive(Debug, PartialEq, Eq)]
pub enum Step {
    VerifyBadge { badge: u64, thread_cap: u64 },
    AttestPresence,
    Prompt { app: AppID, risk: RiskLevel },
    Mint { parent: usize, rights: Rights },
    Transfer { src: usize, dest_cnode: u64, dest_slot: usize, rights: Rights },
    Delete { slot: usize },
    KernelRevoke { cnode: u64, slot: usize },
    Reply(Response),
}

/// The clear name a request carries (empty for a query).
pub open spec fn request_name(r: Request) -> Seq<u8> {
    match r {
        Request::Capability { name, .. } => name_text(name@),
        Request::Revoke { name } => name_text(name@),
        Request::Query => utf8(""),
    }
}

/// `next` is `ses` moved to phase `p`.
pub open spec fn moved(ses: Session, next: Session, p: Phase) -> bool {
    next.badge == ses.badge && next.request == ses.request && next.phase == p
}

/// The request is finished with reply `resp`.
pub open spec fn replied(ses: Session, next: Session, step: Step, resp: Response) -> bool {
    moved(ses, next, Phase::Finished) && step == Step::Reply(resp)
}

/// First step of a delegation of `n` from master `slot`: mint a restricted
/// child for path-scoped names, else transfer directly into the sender's
/// delegation slot, with the attenuated rights.
pub open spec fn delegation_next(
    ses: Session,
    slot: usize,
    n: Seq<u8>,
    fresh: bool,
    single_use: bool,
    next: Session,
    step: Step,
) -> bool {
    let rights = Rights(rights_spec(n));
    if path_scoped_spec(n) {
        moved(ses, next, Phase::Minting { slot, rights, fresh, single_use }) && step
            == Step::Mint { parent: slot, rights }
    } else {
        moved(ses, next, Phase::Transferring { minted: None, rights, fresh, single_use }) && step
            == (Step::Transfer {
            src: slot,
            dest_cnode: ses.badge,
            dest_slot: APP_DELEGATION_SLOT,
            rights,
        })
    }
}

/// The store after a refusal of the session's name has been audited.
pub open spec fn denied_store(s: StoreView, ses: Session, now: u64) -> StoreView {
    s.audited(now, ses.badge, AuditAction::Deny, canonical(request_name(ses.request)), false)
}

/// Undo of a grant recorded for this request, if it recorded one.
pub open spec fn rolled_back(s: StoreView, ses: Session, fresh: bool, now: u64) -> StoreView {
    if fresh {
        s.revoke_model(ses.badge, request_name(ses.request), now)
    } else {
        s
    }
}

/// After authentication: refuse a forged sender; for a capability request,
/// audit the lookup and delegate at once if the name is granted (after
/// resolving it: an unresolvable name ends with the resolver's error), else
/// ask for presence (critical) or consent; start a revoke; answer a query.
pub open spec fn after_verified(
    s0: StoreView,
    ses: Session,
    ok: bool,
    now: u64,
    s1: StoreView,
    next: Session,
    step: Step,
) -> bool {
    let id = ses.badge;
    let n = request_name(ses.request);
    if !ok {
        s1 == s0 && replied(ses, next, step, Response::Error(Error::AccessDenied))
    } else {
        match ses.request {
            Request::Capability { .. } => {
                let sq = s0.query_model(id, n, now);
                let risk = risk_of(n);
                if s0.granted(id, n, now) {
                    match resolve_spec(n) {
                        Err(e) => s1 == sq && replied(ses, next, step, Response::Error(e)),
                        Ok(slot) => s1 == sq && delegation_next(
                            ses,
                            slot,
                            n,
                            false,
                            false,
                            next,
                            step,
                        ),
                    }
                } else if risk == RiskLevel::Critical {
                    s1 == sq && moved(ses, next, Phase::AwaitingPresence { risk }) && step
                        == Step::AttestPresence
                } else {
                    s1 == sq && moved(ses, next, Phase::AwaitingConsent { risk }) && step == (
                    Step::Prompt { app: AppID(id), risk })
                }
            },
            Request::Revoke { .. } => s1 == s0 && moved(ses, next, Phase::Revoking) && step == (
            Step::KernelRevoke { cnode: id, slot: APP_DELEGATION_SLOT }),
            Request::Query => s1 == s0 && moved(ses, next, Phase::Finished) && (step matches Step::Reply(
                Response::List(v),
            ) && v@ == list_bytes(s0.live_names(id, now))),
        }
    }
}

/// After the presence check: prompt if present, else deny without prompting.
pub open spec fn after_presence(
    s0: StoreView,
    ses: Session,
    risk: RiskLevel,
    present: bool,
    now: u64,
    s1: StoreView,
    next: Session,
    step: Step,
) -> bool {
    if present {
        s1 == s0 && moved(ses, next, Phase::AwaitingConsent { risk }) && step == (Step::Prompt {
            app: AppID(ses.badge),
            risk,
        })
    } else {
        s1 == denied_store(s0, ses, now) && replied(ses, next, step, Response::Denied)
    }
}

/// After the prompt: on approval resolve the name (an unknown or forbidden
/// name ends with the resolver's error and no grant), record a grant for
/// the risk's default lifetime and start delegating (single use when
/// critical); on refusal audit a denial and reply `Denied`.
pub open spec fn after_consent(
    s0: StoreView,
    ses: Session,
    risk: RiskLevel,
    approved: bool,
    now: u64,
    s1: StoreView,
    next: Session,
    step: Step,
) -> bool {
    let n = request_name(ses.request);
    if !approved {
        s1 == denied_store(s0, ses, now) && replied(ses, next, step, Response::Denied)
    } else {
        match resolve_spec(n) {
            Err(e) => s1 == s0 && replied(ses, next, step, Response::Error(e)),
            Ok(slot) => {
                let (sg, r) = s0.grant_model(ses.badge, n, Some(duration_of(risk)), now);
                match r {
                    Err(e) => s1 == s0 && replied(ses, next, step, Response::Error(e)),
                    Ok(_) => s1 == sg && delegation_next(
                        ses,
                        slot,
                        n,
                        true,
                        risk == RiskLevel::Critical,
                        next,
                        step,
                    ),
                }
            },
        }
    }
}

/// After minting: transfer the child, or give up with the kernel's error.
pub open spec fn after_mint(
    s0: StoreView,
    ses: Session,
    rights: Rights,
    fresh: bool,
    single_use: bool,
    res: Result<usize, Error>,
    now: u64,
    s1: StoreView,
    next: Session,
    step: Step,
) -> bool {
    match res {
        Err(e) => s1 == rolled_back(s0, ses, fresh, now) && replied(
            ses,
            next,
            step,
            Response::Error(e),
        ),
        Ok(child) => s1 == s0 && moved(
            ses,
            next,
            Phase::Transferring { minted: Some(child), rights, fresh, single_use },
        ) && step == (Step::Transfer {
            src: child,
            dest_cnode: ses.badge,
            dest_slot: APP_DELEGATION_SLOT,
            rights,
        }),
    }
}

/// After the transfer: commit (tombstoning a single-use grant) and reply
/// `Granted`; or roll the recorded grant back, destroy a minted child, and
/// surface the kernel's error.
pub open spec fn after_transfer(
    s0: StoreView,
    ses: Session,
    minted: Option<usize>,
    fresh: bool,
    single_use: bool,
    res: Result<(), Error>,
    now: u64,
    s1: StoreView,
    next: Session,
    step: Step,
) -> bool {
    match res {
        Ok(_) => s1 == (if single_use {
            s0.revoke_model(ses.badge, request_name(ses.request), now)
        } else {
            s0
        }) && replied(ses, next, step, Response::Granted),
        Err(e) => s1 == rolled_back(s0, ses, fresh, now) && match minted {
            Some(c) => moved(ses, next, Phase::Cleaning { error: e }) && step == Step::Delete {
                slot: c,
            },
            None => replied(ses, next, step, Response::Error(e)),
        },
    }
}

/// After the kernel revoke: "no such capability" counts as done; then the
/// store's grant is tombstoned and the reply is `Revoked`.
pub open spec fn after_kernel_revoke(
    s0: StoreView,
    ses: Session,
    res: Result<(), Error>,
    now: u64,
    s1: StoreView,
    next: Session,
    step: Step,
) -> bool {
    match res {
        Err(e) if e != Error::NoCap => s1 == s0 && replied(ses, next, step, Response::Error(e)),
        _ => s1 == s0.revoke_model(ses.badge, request_name(ses.request), now) && replied(
            ses,
            next,
            step,
            Response::Revoked,
        ),
    }
}

/// One transition of a request: from the store, the session and what the
/// last step produced, to the new store, session and step. An outcome that
/// does not belong to the phase ends the request with `Invalid`, the store
/// untouched.
pub open spec fn transition(
    s0: StoreView,
    ses: Session,
    out: Outcome,
    now: u64,
    s1: StoreView,
    next: Session,
    step: Step,
) -> bool {
    match (ses.phase, out) {
        (Phase::Authenticating, Outcome::Verified(ok)) => after_verified(
            s0,
            ses,
            ok,
            now,
            s1,
            next,
            step,
        ),
        (Phase::AwaitingPresence { risk }, Outcome::Presence(p)) => after_presence(
            s0,
            ses,
            risk,
            p,
            now,
            s1,
            next,
            step,
        ),
        (Phase::AwaitingConsent { risk }, Outcome::Consent(a)) => after_consent(
            s0,
            ses,
            risk,
            a,
            now,
            s1,
            next,
            step,
        ),
        (Phase::Minting { rights, fresh, single_use, .. }, Outcome::Minted(res)) => after_mint(
            s0,
            ses,
            rights,
            fresh,
            single_use,
            res,
            now,
            s1,
            next,
            step,
        ),
        (
            Phase::Transferring { minted, fresh, single_use, .. },
            Outcome::Transferred(res),
        ) => after_transfer(s0, ses, minted, fresh, single_use, res, now, s1, next, step),
        (Phase::Cleaning { error }, Outcome::Deleted) => s1 == s0 && replied(
            ses,
            next,
            step,
            Response::Error(error),
        ),
        (Phase::Revoking, Outcome::KernelRevoked(res)) => after_kernel_revoke(
            s0,
            ses,
            res,
            now,
            s1,
            next,
            step,
        ),
        _ => s1 == s0 && replied(ses, next, step, Response::Error(Error::Invalid)),
    }
}

/// Start handling `request` from `badge`: the badge is checked first.
pub fn begin(badge: u64, request: Request) -> (r: (Session, Step))
    ensures
        r.0 == (Session { badge, request, phase: Phase::Authenticating }),
        r.1 == (Step::VerifyBadge {
            badge,
            thread_cap: match request {
                Request::Capability { thread_cap, .. } => thread_cap,
                _ => 0,
            },
        }),
{
    let thread_cap = request.thread_cap();
    (Session { badge, request, phase: Phase::Authenticating }, Step::VerifyBadge { badge, thread_cap })
}

/// The clear name of a request.
fn name_of(req: &Request) -> (r: &str)
    ensures
        utf8(r) == request_name(*req),
{
    match req {
        Request::Capability { name, .. } => null_terminated_str(name),
        Request::Revoke { name } => null_terminated_str(name),
        Request::Query => "",
    }
}

/// The session moved to phase `p`.
fn move_to(ses: &Session, p: Phase) -> (r: Session)
    ensures
        moved(*ses, r, p),
{
    Session { badge: ses.badge, request: ses.request, phase: p }
}

/// End the request with reply `resp`.
fn finish(ses: &Session, resp: Response) -> (r: (Session, Step))
    ensures
        replied(*ses, r.0, r.1, resp),
{
    (move_to(ses, Phase::Finished), Step::Reply(resp))
}

/// First step of delegating `name` from master `slot`.
fn delegation_begin(ses: &Session, slot: usize, name: &str, fresh: bool, single_use: bool) -> (r: (
    Session,
    Step,
))
    ensures
        delegation_next(*ses, slot, utf8(name), fresh, single_use, r.0, r.1),
{
    let rights = calculate_attenuated_rights(name);
    if is_path_scoped(name) {
        (
            move_to(ses, Phase::Minting { slot, rights, fresh, single_use }),
            Step::Mint { parent: slot, rights },
        )
    } else {
        (
            move_to(ses, Phase::Transferring { minted: None, rights, fresh, single_use }),
            Step::Transfer {
                src: slot,
                dest_cnode: ses.badge,
                dest_slot: APP_DELEGATION_SLOT,
                rights,
            },
        )
    }
}

fn on_verified(db: &mut PolicyDB, ses: &Session, ok: bool, now: u64) -> (r: (Session, Step))
    requires
        old(db).wf(),
    ensures
        final(db).wf(),
        after_verified(old(db).view(), *ses, ok, now, final(db).view(), r.0, r.1),
{
    if !ok {
        return finish(ses, Response::Error(Error::AccessDenied));
    }
    let id = AppID::from_badge(ses.badge);
    match ses.request {
        Request::Capability { .. } => {
            let name = name_of(&ses.request);
            match db.is_granted(id, name, now) {
                Ok(true) => match resolve_system_capability(name) {
                    Err(e) => finish(ses, Response::Error(e)),
                    Ok(slot) => delegation_begin(ses, slot, name, false, false),
                },
                _ => {
                    let risk = assess_risk(name);
                    match risk {
                        RiskLevel::Critical => (
                            move_to(ses, Phase::AwaitingPresence { risk }),
                            Step::AttestPresence,
                        ),
                        _ => (
                            move_to(ses, Phase::AwaitingConsent { risk }),
                            Step::Prompt { app: id, risk },
                        ),
                    }
                },
            }
        },
        Request::Revoke { .. } => (
            move_to(ses, Phase::Revoking),
            Step::KernelRevoke { cnode: ses.badge, slot: APP_DELEGATION_SLOT },
        ),
        Request::Query => {
            let names = db.active_names(id, now);
            finish(ses, Response::List(list_payload(&names)))
        },
    }
}

fn on_presence(
    db: &mut PolicyDB,
    ses: &Session,
    risk: RiskLevel,
    present: bool,
    now: u64,
) -> (r: (Session, Step))
    requires
        old(db).wf(),
    ensures
        final(db).wf(),
        after_presence(old(db).view(), *ses, risk, present, now, final(db).view(), r.0, r.1),
{
    if present {
        (
            move_to(ses, Phase::AwaitingConsent { risk }),
            Step::Prompt { app: AppID::from_badge(ses.badge), risk },
        )
    } else {
        db.log_denial(AppID::from_badge(ses.badge), name_of(&ses.request), now);
        finish(ses, Response::Denied)
    }
}

fn on_consent(
    db: &mut PolicyDB,
    ses: &Session,
    risk: RiskLevel,
    approved: bool,
    now: u64,
) -> (r: (Session, Step))
    requires
        old(db).wf(),
    ensures
        final(db).wf(),
        after_consent(old(db).view(), *ses, risk, approved, now, final(db).view(), r.0, r.1),
{
    let id = AppID::from_badge(ses.badge);
    let name = name_of(&ses.request);
    if !approved {
        db.log_denial(id, name, now);
        return finish(ses, Response::Denied);
    }
    let slot = match resolve_system_capability(name) {
        Err(e) => return finish(ses, Response::Error(e)),
        Ok(s) => s,
    };
    match db.grant(id, name, Some(risk.default_duration()), now) {
        Err(e) => finish(ses, Response::Error(e)),
        Ok(()) => {
            let single_use = match risk {
                RiskLevel::Critical => true,
                _ => false,
            };
            delegation_begin(ses, slot, name, true, single_use)
        },
    }
}

fn on_minted(
    db: &mut PolicyDB,
    ses: &Session,
    rights: Rights,
    fresh: bool,
    single_use: bool,
    res: Result<usize, Error>,
    now: u64,
) -> (r: (Session, Step))
    requires
        old(db).wf(),
    ensures
        final(db).wf(),
        after_mint(
            old(db).view(),
            *ses,
            rights,
            fresh,
            single_use,
            res,
            now,
            final(db).view(),
            r.0,
            r.1,
        ),
{
    match res {
        Err(e) => {
            if fresh {
                let _ = db.revoke(AppID::from_badge(ses.badge), name_of(&ses.request), now);
            }
            finish(ses, Response::Error(e))
        },
        Ok(child) => (
            move_to(ses, Phase::Transferring { minted: Some(child), rights, fresh, single_use }),
            Step::Transfer {
                src: child,
                dest_cnode: ses.badge,
                dest_slot: APP_DELEGATION_SLOT,
                rights,
            },
        ),
    }
}

fn on_transferred(
    db: &mut PolicyDB,
    ses: &Session,
    minted: Option<usize>,
    fresh: bool,
    single_use: bool,
    res: Result<(), Error>,
    now: u64,
) -> (r: (Session, Step))
    requires
        old(db).wf(),
    ensures
        final(db).wf(),
        after_transfer(
            old(db).view(),
            *ses,
            minted,
            fresh,
            single_use,
            res,
            now,
            final(db).view(),
            r.0,
            r.1,
        ),
{
    let id = AppID::from_badge(ses.badge);
    match res {
        Ok(()) => {
            if single_use {
                let _ = db.revoke(id, name_of(&ses.request), now);
            }
            finish(ses, Response::Granted)
        },
        Err(e) => {
            if fresh {
                let _ = db.revoke(id, name_of(&ses.request), now);
            }
            match minted {
                Some(c) => (move_to(ses, Phase::Cleaning { error: e }), Step::Delete { slot: c }),
                None => finish(ses, Response::Error(e)),
            }
        },
    }
}

fn on_kernel_revoked(db: &mut PolicyDB, ses: &Session, res: Result<(), Error>, now: u64) -> (r: (
    Session,
    Step,
))
    requires
        old(db).wf(),
    ensures
        final(db).wf(),
        after_kernel_revoke(old(db).view(), *ses, res, now, final(db).view(), r.0, r.1),
{
    if let Err(e) = res {
        if e != Error::NoCap {
            return finish(ses, Response::Error(e));
        }
    }
    let _ = db.revoke(AppID::from_badge(ses.badge), name_of(&ses.request), now);
    finish(ses, Response::Revoked)
}

/// Take one step of a request, given what the previous step produced and
/// the kernel clock `now` (ms).
pub fn advance(db: &mut PolicyDB, ses: &Session, out: Outcome, now: u64) -> (r: (Session, Step))
    requires
        old(db).wf(),
    ensures
        final(db).wf(),
        transition(old(db).view(), *ses, out, now, final(db).view(), r.0, r.1),
{
    match (ses.phase, out) {
        (Phase::Authenticating, Outcome::Verified(ok)) => on_verified(db, ses, ok, now),
        (Phase::AwaitingPresence { risk }, Outcome::Presence(p)) => on_presence(
            db,
            ses,
            risk,
            p,
            now,
        ),
        (Phase::AwaitingConsent { risk }, Outcome::Consent(a)) => on_consent(
            db,
            ses,
            risk,
            a,
            now,
        ),
        (Phase::Minting { rights, fresh, single_use, .. }, Outcome::Minted(res)) => on_minted(
            db,
            ses,
            rights,
            fresh,
            single_use,
            res,
            now,
        ),
        (
            Phase::Transferring { minted, fresh, single_use, .. },
            Outcome::Transferred(res),
        ) => on_transferred(db, ses, minted, fresh, single_use, res, now),
        (Phase::Cleaning { error }, Outcome::Deleted) => finish(ses, Response::Error(error)),
        (Phase::Revoking, Outcome::KernelRevoked(res)) => on_kernel_revoked(db, ses, res, now),
        _ => finish(ses, Response::Error(Error::Invalid)),
    }
}

/// A sender whose badge the kernel does not confirm gets `AccessDenied`,
/// whatever it asked, and the store is left exactly as it was.
pub proof fn forged_badge_is_refused(
    s0: StoreView,
    ses: Session,
    now: u64,
    s1: StoreView,
    next: Session,
    step: Step,
)
    requires
        ses.phase == Phase::Authenticating,
        transition(s0, ses, Outcome::Verified(false), now, s1, next, step),
    ensures
        s1 == s0,
        next.phase == Phase::Finished,
        step == Step::Reply(Response::Error(Error::AccessDenied)),
{
}

/// A capability request for a name the resolver does not know ends with
/// `Invalid` once the user approves, and no grant is recorded: the store is
/// left as it was.
pub proof fn unknown_name_is_invalid(
    s0: StoreView,
    ses: Session,
    risk: RiskLevel,
    now: u64,
    s1: StoreView,
    next: Session,
    step: Step,
)
    requires
        ses.phase == (Phase::AwaitingConsent { risk }),
        resolve_spec(request_name(ses.request)) is Err,
        !is_forbidden(request_name(ses.request)),
        transition(s0, ses, Outcome::Consent(true), now, s1, next, step),
    ensures
        s1 == s0,
        next.phase == Phase::Finished,
        step == Step::Reply(Response::Error(Error::Invalid)),
{
    let n = request_name(ses.request);
    assert(resolve_spec(n) == Err::<usize, Error>(Error::Invalid));
}

/// A forbidden name ends with `AccessDenied` even when the user approves,
/// and no grant is recorded: the store is left as it was.
pub proof fn forbidden_name_is_denied(
    s0: StoreView,
    ses: Session,
    risk: RiskLevel,
    now: u64,
    s1: StoreView,
    next: Session,
    step: Step,
)
    requires
        ses.phase == (Phase::AwaitingConsent { risk }),
        is_forbidden(request_name(ses.request)),
        transition(s0, ses, Outcome::Consent(true), now, s1, next, step),
    ensures
        s1 == s0,
        next.phase == Phase::Finished,
        step == Step::Reply(Response::Error(Error::AccessDenied)),
{
    forbidden_names_are_denied(request_name(ses.request));
}

/// Before consent, a capability request changes nothing but the audit log:
/// the grants stay as they were, whatever the name.
pub proof fn lookup_records_no_grant(
    s0: StoreView,
    ses: Session,
    now: u64,
    s1: StoreView,
    next: Session,
    step: Step,
)
    requires
        ses.phase == Phase::Authenticating,
        ses.request is Capability,
        transition(s0, ses, Outcome::Verified(true), now, s1, next, step),
    ensures
        s1.apps == s0.apps,
{
}

/// A single-use (critical) grant is consumed by its first successful
/// delegation: afterwards the sender no longer holds the name, at any time.
pub proof fn single_use_grant_is_consumed(
    s0: StoreView,
    ses: Session,
    minted: Option<usize>,
    rights: Rights,
    fresh: bool,
    now: u64,
    later: u64,
    s1: StoreView,
    next: Session,
    step: Step,
)
    requires
        ses.phase == (Phase::Transferring { minted, rights, fresh, single_use: true }),
        transition(s0, ses, Outcome::Transferred(Ok(())), now, s1, next, step),
    ensures
        !s1.granted(ses.badge, request_name(ses.request), later),
        step == Step::Reply(Response::Granted),
{
    revoked_is_not_granted(s0, ses.badge, request_name(ses.request), now, later);
}

/// When the kernel refuses the delegation of a grant recorded for this
/// request, the grant is rolled back: the store no longer shows the name
/// as held, so store and kernel agree.
pub proof fn failed_delegation_is_rolled_back(
    s0: StoreView,
    ses: Session,
    out: Outcome,
    now: u64,
    later: u64,
    s1: StoreView,
    next: Session,
    step: Step,
)
    requires
        match (ses.phase, out) {
            (Phase::Minting { fresh, .. }, Outcome::Minted(Err(_))) => fresh,
            (Phase::Transferring { fresh, .. }, Outcome::Transferred(Err(_))) => fresh,
            _ => false,
        },
        transition(s0, ses, out, now, s1, next, step),
    ensures
        !s1.granted(ses.badge, request_name(ses.request), later),
{
    revoked_is_not_granted(s0, ses.badge, request_name(ses.request), now, later);
}

} // verus!
