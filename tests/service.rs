use kozo_policy::auth::AppID;
use kozo_policy::db::PolicyDB;
use kozo_policy::delegation::{
    Rights, APP_DELEGATION_SLOT, RIGHT_READ, RIGHT_WRITE, SYSTEM_CAMERA_CAP, SYSTEM_FS_HOME_CAP,
};
use kozo_policy::error::Error;
use kozo_policy::risk::RiskLevel;
use kozo_policy::service::{advance, begin, Outcome, Phase, Session, Step};
use kozo_policy::store::AuditAction;
use kozo_policy::wire::{list_payload, Request, Response};

fn field(s: &str) -> [u8; 32] {
    let mut f = [0u8; 32];
    f[..s.len()].copy_from_slice(s.as_bytes());
    f
}

fn cap(name: &str, thread_cap: u64) -> Request {
    Request::Capability { name: field(name), thread_cap }
}

/// Drives one request, answering each step from `answer`, and returns the
/// steps taken (the last is the reply).
fn run(db: &mut PolicyDB, badge: u64, req: Request, now: u64, answer: &dyn Fn(&Step) -> Outcome) -> Vec<Step> {
    let (mut ses, mut step): (Session, Step) = begin(badge, req);
    let mut steps = Vec::new();
    loop {
        if let Step::Reply(_) = step {
            steps.push(step);
            return steps;
        }
        let out = answer(&step);
        steps.push(step);
        let (s2, st2) = advance(db, &ses, out, now);
        ses = s2;
        step = st2;
    }
}

fn approve_all(step: &Step) -> Outcome {
    match step {
        Step::VerifyBadge { .. } => Outcome::Verified(true),
        Step::AttestPresence => Outcome::Presence(true),
        Step::Prompt { .. } => Outcome::Consent(true),
        Step::Mint { .. } => Outcome::Minted(Ok(77)),
        Step::Transfer { .. } => Outcome::Transferred(Ok(())),
        Step::Delete { .. } => Outcome::Deleted,
        Step::KernelRevoke { .. } => Outcome::KernelRevoked(Ok(())),
        Step::Reply(_) => Outcome::Deleted,
    }
}

fn transfers(steps: &[Step]) -> usize {
    steps.iter().filter(|s| matches!(s, Step::Transfer { .. })).count()
}

fn prompts(steps: &[Step]) -> usize {
    steps.iter().filter(|s| matches!(s, Step::Prompt { .. })).count()
}

const T0: u64 = 1_000_000;

fn cold_grant(db: &mut PolicyDB) -> Vec<Step> {
    run(db, 0xA1, cap("camera.use", 7), T0, &approve_all)
}

#[test]
fn cold_grant_and_delegate() {
    let mut db = PolicyDB::new().unwrap();
    let steps = cold_grant(&mut db);
    assert_eq!(
        steps,
        vec![
            Step::VerifyBadge { badge: 0xA1, thread_cap: 7 },
            Step::Prompt { app: AppID(0xA1), risk: RiskLevel::High },
            Step::Transfer {
                src: SYSTEM_CAMERA_CAP,
                dest_cnode: 0xA1,
                dest_slot: APP_DELEGATION_SLOT,
                rights: Rights(RIGHT_READ | RIGHT_WRITE),
            },
            Step::Reply(Response::Granted),
        ]
    );
    assert_eq!(db.is_expired(AppID(0xA1), "camera.use", T0 + 59_999), Ok(false));
    assert_eq!(db.is_expired(AppID(0xA1), "camera.use", T0 + 60_000), Ok(true));
    assert_eq!(db.active_names(AppID(0xA1), T0).len(), 1);
}

#[test]
fn warm_grant_skips_consent() {
    let mut db = PolicyDB::new().unwrap();
    cold_grant(&mut db);
    let steps = run(&mut db, 0xA1, cap("camera.use", 7), T0 + 30_000, &approve_all);
    assert_eq!(prompts(&steps), 0);
    assert_eq!(transfers(&steps), 1);
    assert_eq!(steps.last(), Some(&Step::Reply(Response::Granted)));
}

#[test]
fn expired_grant_asks_again() {
    let mut db = PolicyDB::new().unwrap();
    cold_grant(&mut db);
    let later = T0 + 61_000;
    let steps = run(&mut db, 0xA1, cap("camera.use", 7), later, &approve_all);
    assert_eq!(prompts(&steps), 1);
    assert_eq!(transfers(&steps), 1);
    assert_eq!(steps.last(), Some(&Step::Reply(Response::Granted)));
    assert_eq!(db.is_expired(AppID(0xA1), "camera.use", later + 59_999), Ok(false));
    assert_eq!(db.active_names(AppID(0xA1), later).len(), 1);
}

#[test]
fn user_denial() {
    let mut db = PolicyDB::new().unwrap();
    let deny = |s: &Step| match s {
        Step::Prompt { .. } => Outcome::Consent(false),
        other => approve_all(other),
    };
    let steps = run(&mut db, 0xB2, cap("network.outbound", 3), T0, &deny);
    assert_eq!(steps.last(), Some(&Step::Reply(Response::Denied)));
    assert_eq!(transfers(&steps), 0);
    let ev = db.get_recent_events(64);
    assert_eq!(ev.iter().filter(|e| e.action == AuditAction::Deny).count(), 1);
    assert!(db.active_names(AppID(0xB2), T0).is_empty());
    assert_eq!(ev.iter().filter(|e| e.action == AuditAction::Grant).count(), 0);
}

#[test]
fn critical_without_presence() {
    let mut db = PolicyDB::new().unwrap();
    let absent = |s: &Step| match s {
        Step::AttestPresence => Outcome::Presence(false),
        other => approve_all(other),
    };
    let steps = run(&mut db, 0xC3, cap("system.restore", 1), T0, &absent);
    assert_eq!(prompts(&steps), 0);
    assert_eq!(steps.last(), Some(&Step::Reply(Response::Denied)));
}

#[test]
fn revoke_round_trip() {
    let mut db = PolicyDB::new().unwrap();
    cold_grant(&mut db);
    let steps = run(&mut db, 0xA1, Request::Revoke { name: field("camera.use") }, T0 + 1, &approve_all);
    assert_eq!(
        steps,
        vec![
            Step::VerifyBadge { badge: 0xA1, thread_cap: 0 },
            Step::KernelRevoke { cnode: 0xA1, slot: APP_DELEGATION_SLOT },
            Step::Reply(Response::Revoked),
        ]
    );
    assert_eq!(db.is_granted(AppID(0xA1), "camera.use", T0 + 2), Ok(false));
}

#[test]
fn revoke_tolerates_missing_kernel_capability() {
    let mut db = PolicyDB::new().unwrap();
    let nocap = |s: &Step| match s {
        Step::KernelRevoke { .. } => Outcome::KernelRevoked(Err(Error::NoCap)),
        other => approve_all(other),
    };
    let req = Request::Revoke { name: field("camera.use") };
    assert_eq!(run(&mut db, 0xA1, req, T0, &nocap).last(), Some(&Step::Reply(Response::Revoked)));
    assert_eq!(run(&mut db, 0xA1, req, T0, &nocap).last(), Some(&Step::Reply(Response::Revoked)));
    let broken = |s: &Step| match s {
        Step::KernelRevoke { .. } => Outcome::KernelRevoked(Err(Error::NoMem)),
        other => approve_all(other),
    };
    assert_eq!(
        run(&mut db, 0xA1, req, T0, &broken).last(),
        Some(&Step::Reply(Response::Error(Error::NoMem)))
    );
}

#[test]
fn forged_badge_is_refused_and_store_untouched() {
    let mut db = PolicyDB::new().unwrap();
    let forged = |s: &Step| match s {
        Step::VerifyBadge { .. } => Outcome::Verified(false),
        other => approve_all(other),
    };
    let steps = run(&mut db, 0xEE, cap("camera.use", 4), T0, &forged);
    assert_eq!(steps.last(), Some(&Step::Reply(Response::Error(Error::AccessDenied))));
    assert!(db.get_recent_events(64).is_empty());
    assert!(db.active_names(AppID(0xEE), T0).is_empty());
}

#[test]
fn unknown_name_is_invalid_and_creates_nothing() {
    let mut db = PolicyDB::new().unwrap();
    let steps = run(&mut db, 0xA1, cap("teleport.now", 7), T0, &approve_all);
    assert_eq!(steps.last(), Some(&Step::Reply(Response::Error(Error::Invalid))));
    assert_eq!(transfers(&steps), 0);
    assert!(db.active_names(AppID(0xA1), T0).is_empty());
    let ev = db.get_recent_events(64);
    assert_eq!(ev.iter().filter(|e| e.action == AuditAction::Grant).count(), 0);
}

#[test]
fn forbidden_names_denied_even_when_approved() {
    let mut db = PolicyDB::new().unwrap();
    for n in ["network.inbound", "files.system.write"] {
        let steps = run(&mut db, 0xA1, cap(n, 7), T0, &approve_all);
        assert_eq!(steps.last(), Some(&Step::Reply(Response::Error(Error::AccessDenied))));
        assert_eq!(transfers(&steps), 0);
    }
    assert!(db.active_names(AppID(0xA1), T0).is_empty());
}

#[test]
fn files_go_through_a_minted_child() {
    let mut db = PolicyDB::new().unwrap();
    let steps = run(&mut db, 0xD4, cap("files.home.read", 2), T0, &approve_all);
    assert_eq!(
        steps[2..],
        [
            Step::Mint { parent: SYSTEM_FS_HOME_CAP, rights: Rights(RIGHT_READ) },
            Step::Transfer { src: 77, dest_cnode: 0xD4, dest_slot: APP_DELEGATION_SLOT, rights: Rights(RIGHT_READ) },
            Step::Reply(Response::Granted),
        ]
    );
}

#[test]
fn failed_transfer_rolls_back_and_destroys_child() {
    let mut db = PolicyDB::new().unwrap();
    let fail = |s: &Step| match s {
        Step::Transfer { .. } => Outcome::Transferred(Err(Error::NoMem)),
        other => approve_all(other),
    };
    let steps = run(&mut db, 0xD4, cap("files.home.read", 2), T0, &fail);
    assert_eq!(steps[steps.len() - 2], Step::Delete { slot: 77 });
    assert_eq!(steps.last(), Some(&Step::Reply(Response::Error(Error::NoMem))));
    assert_eq!(db.is_granted(AppID(0xD4), "files.home.read", T0), Ok(false));
}

#[test]
fn failed_mint_rolls_back() {
    let mut db = PolicyDB::new().unwrap();
    let fail = |s: &Step| match s {
        Step::Mint { .. } => Outcome::Minted(Err(Error::NoCap)),
        other => approve_all(other),
    };
    let steps = run(&mut db, 0xD4, cap("files.home.write", 2), T0, &fail);
    assert_eq!(steps.last(), Some(&Step::Reply(Response::Error(Error::NoCap))));
    assert_eq!(db.is_granted(AppID(0xD4), "files.home.write", T0), Ok(false));
}

#[test]
fn granted_name_is_delegated_without_prompt() {
    let mut db = PolicyDB::new().unwrap();
    db.grant(AppID(0xC3), "camera.use", None, 0).unwrap();
    let steps = run(&mut db, 0xC3, cap("camera.use", 1), T0, &approve_all);
    assert_eq!(prompts(&steps), 0);
    assert_eq!(steps.last(), Some(&Step::Reply(Response::Granted)));
    assert_eq!(db.is_granted(AppID(0xC3), "camera.use", T0), Ok(true));
}

#[test]
fn critical_unknown_name_is_invalid_after_presence_and_consent() {
    let mut db = PolicyDB::new().unwrap();
    let steps = run(&mut db, 0xC3, cap("system.restore", 1), T0, &approve_all);
    assert_eq!(steps[1], Step::AttestPresence);
    assert_eq!(prompts(&steps), 1);
    assert_eq!(steps.last(), Some(&Step::Reply(Response::Error(Error::Invalid))));
    assert!(db.active_names(AppID(0xC3), T0).is_empty());
}

#[test]
fn query_lists_live_grants() {
    let mut db = PolicyDB::new().unwrap();
    cold_grant(&mut db);
    let steps = run(&mut db, 0xA1, Request::Query, T0 + 5, &approve_all);
    let expected = list_payload(&vec![field("camera.use")]);
    assert_eq!(steps.last(), Some(&Step::Reply(Response::List(expected))));
    let later = run(&mut db, 0xA1, Request::Query, T0 + 60_000, &approve_all);
    assert_eq!(later.last(), Some(&Step::Reply(Response::List(list_payload(&vec![])))));
}

#[test]
fn out_of_order_outcome_ends_with_invalid() {
    let mut db = PolicyDB::new().unwrap();
    let (ses, _) = begin(1, Request::Query);
    let (next, step) = advance(&mut db, &ses, Outcome::Consent(true), T0);
    assert_eq!(next.phase, Phase::Finished);
    assert_eq!(step, Step::Reply(Response::Error(Error::Invalid)));
}

#[test]
fn store_exhaustion_surfaces_nomem() {
    let mut db = PolicyDB::new().unwrap();
    for i in 0..32 {
        db.grant(AppID(9), &format!("x.{}", i), None, 0).unwrap();
    }
    let steps = run(&mut db, 9, cap("camera.use", 1), T0, &approve_all);
    assert_eq!(steps.last(), Some(&Step::Reply(Response::Error(Error::NoMem))));
    assert_eq!(transfers(&steps), 0);
}
