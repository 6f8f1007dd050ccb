use coordinator_server::error::DetailValue;
use coordinator_server::autonomy::{required_review_kinds, reviews_satisfied};
use coordinator_server::autonomy::{
    approvals_satisfied, check_revise, reconcile_step, review_unrequired, ReviewStep, ReviseFacts,
};

fn v(items: &[&str]) -> Vec<String> {
    items.iter().map(|item| (*item).to_owned()).collect()
}

#[test]
fn human_approval_satisfies_every_kind_but_counts_once() {
    assert!(reviews_satisfied(&v(&["agent_review"]), &v(&["human"])));
    assert!(reviews_satisfied(&v(&["either_review"]), &v(&["human"])));
    assert!(!reviews_satisfied(&v(&["human_review", "either_review"]), &v(&["human"])));
}

#[test]
fn agent_approval_never_satisfies_a_human_review() {
    assert!(!reviews_satisfied(&v(&["human_review"]), &v(&["agent"])));
    assert!(reviews_satisfied(&v(&["either_review"]), &v(&["agent"])));
}

#[test]
fn both_needs_one_human_and_one_agent() {
    let both = v(&["agent_review", "human_review"]);
    assert!(!reviews_satisfied(&both, &v(&["human", "human"])));
    assert!(reviews_satisfied(&both, &v(&["human", "agent"])));
    assert!(reviews_satisfied(&[], &[]));
}

#[test]
fn more_approvals_never_undo_satisfaction() {
    let required = v(&["human_review", "agent_review"]);
    assert!(reviews_satisfied(&required, &v(&["agent", "human"])));
    assert!(reviews_satisfied(&required, &v(&["agent", "human", "agent"])));
}

#[test]
fn unknown_mode_requires_no_review_kinds() {
    assert!(required_review_kinds("no-such-mode").is_empty());
}

fn revise_facts() -> ReviseFacts {
    ReviseFacts {
        holds_integration: false,
        candidate_missing: false,
        is_contributor: false,
        digest_changed: false,
        is_author: false,
    }
}

#[test]
fn revise_needs_a_reason_code() {
    let e = check_revise(None, "agent", 0, None, revise_facts()).err().unwrap();
    assert_eq!(e.status, 400);
    assert!(e.message.starts_with("Agents must give reason_code"));
}

#[test]
fn revise_is_reserved_to_humans_under_manual_recovery() {
    let mut f = revise_facts();
    f.is_author = true;
    let e = check_revise(Some("author_withdraw"), "manual", 0, None, f).err().unwrap();
    assert_eq!(e.status, 403);
    assert_eq!(e.code, "human_reopen_required");
    assert_eq!(e.details[0].key, "required_actor");
    assert_eq!(e.details[0].value, DetailValue::Text("human".to_owned()));
}

#[test]
fn revise_limit_is_three_per_day() {
    let mut f = revise_facts();
    f.is_author = true;
    assert!(check_revise(Some("author_withdraw"), "agent", 2, None, f).is_ok());
    let e = check_revise(Some("author_withdraw"), "agent", 3, None, f).err().unwrap();
    assert_eq!(e.status, 403);
    assert_eq!(e.code, "revise_limit_reached");
    assert_eq!(e.details[1].value, DetailValue::Text("revise_limit_reached".to_owned()));
}

#[test]
fn conflict_revise_needs_evidence_and_the_integration() {
    let mut f = revise_facts();
    let e = check_revise(Some("conflict"), "agent", 0, Some("   "), f).err().unwrap();
    assert_eq!(e.message, "This reason_code needs 1–16384 bytes of evidence.");
    let e = check_revise(Some("check_failed"), "agent", 0, Some("log"), f).err().unwrap();
    assert_eq!(e.code, "revise_not_permitted");
    f.holds_integration = true;
    let reason = check_revise(Some("conflict"), "agent", 0, Some("merge conflict"), f).unwrap();
    assert_eq!(reason.reason_code, "conflict");
    assert_eq!(reason.evidence.as_deref(), Some("merge conflict"));
}

#[test]
fn requirement_changes_are_claimed_by_non_contributors_only() {
    let mut f = revise_facts();
    f.digest_changed = true;
    assert!(check_revise(Some("requirements_changed"), "agent", 0, None, f).is_ok());
    f.is_contributor = true;
    let e = check_revise(Some("requirements_changed"), "agent", 0, None, f).err().unwrap();
    assert_eq!(e.status, 409);
    f.is_contributor = false;
    f.digest_changed = false;
    assert!(check_revise(Some("requirements_changed"), "agent", 0, None, f).is_err());
}

#[test]
fn unknown_and_missing_candidate_reasons() {
    let mut f = revise_facts();
    let e = check_revise(Some("bored"), "agent", 0, None, f).err().unwrap();
    assert_eq!(e.message, "Unknown reason_code.");
    assert!(check_revise(Some("candidate_missing"), "agent", 0, None, f).is_err());
    f.candidate_missing = true;
    let reason = check_revise(Some("candidate_missing"), "agent", 0, None, f).unwrap();
    assert_eq!(reason.evidence, None);
}

#[test]
fn approvals_follow_the_current_mode_only_while_in_review() {
    assert!(!approvals_satisfied(true, "human", &v(&["agent_review"]), &v(&["agent"])));
    assert!(approvals_satisfied(false, "human", &v(&["agent_review"]), &v(&["agent"])));
    assert!(approvals_satisfied(true, "either", &[], &v(&["agent"])));
}

#[test]
fn reconcile_queues_only_missing_reviews() {
    match reconcile_step(&v(&["agent_review", "human_review"]), &v(&["agent"]), 0, &v(&["agent_review"])) {
        ReviewStep::AddReviews(kinds) => assert_eq!(kinds, v(&["human_review"])),
        _ => panic!("expected reviews to add"),
    }
    match reconcile_step(&v(&["agent_review", "human_review"]), &[], 0, &v(&["agent_review", "human_review"])) {
        ReviewStep::AddReviews(kinds) => assert!(kinds.is_empty()),
        _ => panic!("expected reviews to add"),
    }
}

#[test]
fn reconcile_advances_satisfied_subjects_unless_a_review_is_active() {
    assert!(matches!(reconcile_step(&v(&["human_review"]), &v(&["human"]), 0, &[]), ReviewStep::Advance));
    assert!(matches!(reconcile_step(&v(&["human_review"]), &v(&["human"]), 1, &[]), ReviewStep::AwaitActive));
}

#[test]
fn queued_reviews_no_longer_required_are_canceled() {
    assert!(review_unrequired("human_review", &v(&["agent_review"])));
    assert!(!review_unrequired("agent_review", &v(&["agent_review"])));
    assert!(!review_unrequired("integration", &[]));
}

#[test]
fn satisfaction_ignores_the_order_of_either_list() {
    let required = v(&["human_review", "agent_review"]);
    let reordered = v(&["agent_review", "human_review"]);
    for approvers in [v(&["agent", "human"]), v(&["human", "agent"]), v(&["human", "human"])] {
        assert_eq!(reviews_satisfied(&required, &approvers), reviews_satisfied(&reordered, &approvers));
    }
    assert!(reviews_satisfied(&v(&["either_review"]), &v(&["agent", "agent"])));
    assert!(reviews_satisfied(&v(&["either_review"]), &v(&["human", "agent"])));
}
