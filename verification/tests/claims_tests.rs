use coordinator_server::claims::{
    chars_less, claim_grant, is_claim_eligible, replayed_claim_authority, select_claim,
    ClaimCandidate,
};
use coordinator_server::coordination::{check_ownership, AttemptState, OwnedTask, TaskState};
use coordinator_server::auth::Actor;

fn open_task() -> TaskState {
    TaskState {
        lifecycle: "open".to_owned(),
        has_current_attempt: false,
        attempt_state: None,
        attempt_expires: None,
        owner_authorized: false,
        decisions_ready: true,
        objective_children_ready: true,
        workflow_status: None,
        workflow_phase: None,
        is_workflow_activity: false,
        has_blocked_reason: false,
        dependencies_ready: true,
    }
}

fn candidate(id: &str, priority: i64, ready_since: i64) -> ClaimCandidate {
    ClaimCandidate { id: id.to_owned(), priority, ready_since, archived: false, task: open_task() }
}

fn owned(id: &str, priority: i64, expires: i64, authorized: bool) -> ClaimCandidate {
    let mut c = candidate(id, priority, 0);
    c.task.has_current_attempt = true;
    c.task.attempt_state = Some("active".to_owned());
    c.task.attempt_expires = Some(expires);
    c.task.owner_authorized = authorized;
    c
}

fn chars(s: &str) -> Vec<char> {
    s.chars().collect()
}

#[test]
fn identities_sort_by_code_point() {
    assert!(chars_less(&chars("a"), &chars("b")));
    assert!(chars_less(&chars("ab"), &chars("abc")));
    assert!(!chars_less(&chars("abc"), &chars("ab")));
    assert!(!chars_less(&chars("same"), &chars("same")));
    assert!(chars_less(&chars("B"), &chars("a")));
    assert!(chars_less(&chars(""), &chars("x")));
}

#[test]
fn next_eligible_claim_takes_priority_then_age_then_identity() {
    let cs = vec![
        candidate("t3", 2, 5),
        candidate("t2", 1, 9),
        candidate("t1", 1, 9),
        candidate("t0", 1, 10),
    ];
    assert_eq!(select_claim(&cs, false, 100), Some(2));
    let cs = vec![candidate("a", 3, 1), candidate("b", 2, 50)];
    assert_eq!(select_claim(&cs, false, 100), Some(1));
    let cs = vec![candidate("a", 2, 7), candidate("b", 2, 3)];
    assert_eq!(select_claim(&cs, false, 100), Some(1));
}

#[test]
fn next_eligible_claim_skips_what_it_cannot_take() {
    let mut archived = candidate("a", 0, 0);
    archived.archived = true;
    let mut blocked = candidate("b", 0, 0);
    blocked.task.has_blocked_reason = true;
    let mut in_review = candidate("c", 0, 0);
    in_review.task.workflow_phase = Some("review".to_owned());
    let mut waiting = candidate("d", 0, 0);
    waiting.task.dependencies_ready = false;
    let mut revising = candidate("e", 5, 0);
    revising.task.workflow_phase = Some("revision_needed".to_owned());
    let held = owned("f", 0, 1_000, true);
    let mut cs = vec![archived, blocked, in_review, waiting, held, revising];
    assert_eq!(select_claim(&cs, false, 100), Some(5));
    cs.pop();
    assert_eq!(select_claim(&cs, false, 100), None);
    assert_eq!(select_claim(&Vec::new(), false, 100), None);
}

#[test]
fn recovery_claims_take_only_lapsed_owners() {
    let live = owned("a", 0, 1_000, true);
    let expired = owned("b", 5, 50, true);
    let revoked = owned("c", 3, 1_000, false);
    let free = candidate("d", 0, 0);
    assert!(!is_claim_eligible(&live, true, 100));
    assert!(is_claim_eligible(&expired, true, 100));
    assert!(is_claim_eligible(&revoked, true, 100));
    assert!(!is_claim_eligible(&free, true, 100));
    let cs = vec![live, expired, revoked, free];
    assert_eq!(select_claim(&cs, true, 100), Some(2));
    assert_eq!(select_claim(&cs, false, 100), Some(3));
}

#[test]
fn a_claim_grants_the_next_generation_and_a_lease() {
    let g = claim_grant(4, 1_000, 900);
    assert_eq!(g.generation, 5);
    assert_eq!(g.expires_at, 901_000);
    assert_eq!(g.lease_remaining_ms, 900_000);
    assert_eq!(g.renew_after_seconds, 60);
    let short = claim_grant(0, 0, 90);
    assert_eq!(short.generation, 1);
    assert_eq!(short.renew_after_seconds, 30);
}

#[test]
fn an_earlier_grant_is_fenced_after_a_new_claim() {
    let g = claim_grant(4, 1_000, 900);
    let actor = Actor {
        id: "p1".to_owned(),
        name: "n".to_owned(),
        kind: "agent".to_owned(),
        role: "agent".to_owned(),
        credential_id: None,
        session_id: Some("s1".to_owned()),
        credential_attributes: None,
    };
    let earlier = AttemptState {
        owner_id: "p1".to_owned(),
        session_id: "s1".to_owned(),
        credential_id: None,
        generation: 4,
        state: "active".to_owned(),
        expires_at: 5_000,
    };
    let task = OwnedTask {
        current_attempt_id: Some("old".to_owned()),
        generation: g.generation,
        owner_authorized: true,
    };
    assert!(check_ownership(&earlier, &actor, "old", 4, 2_000, &task).is_err());
    assert!(check_ownership(&earlier, &actor, "old", 5, 2_000, &task).is_err());
}

#[test]
fn a_replayed_claim_reports_current_authority() {
    let r = replayed_claim_authority("active", "work", 31_000, 1_000, true, true, true, true);
    assert!(r.valid);
    assert_eq!(r.lease_remaining_ms, 30_000);
    assert_eq!(r.renew_after_seconds, 10);
    let r = replayed_claim_authority("active", "work", 31_000, 1_000, true, false, true, true);
    assert!(!r.valid);
    assert_eq!(r.lease_remaining_ms, 0);
    assert_eq!(r.renew_after_seconds, 0);
    let r = replayed_claim_authority("active", "recovery", 31_000, 1_000, true, false, true, true);
    assert!(r.valid);
    let r = replayed_claim_authority("expired", "work", 31_000, 1_000, true, true, true, true);
    assert!(!r.valid);
    let r = replayed_claim_authority("active", "work", 1_000, 1_000, true, true, true, true);
    assert!(!r.valid);
    let r = replayed_claim_authority("active", "work", 999_000, 0, true, true, true, false);
    assert!(!r.valid);
}
