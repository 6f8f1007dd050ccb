use coordinator_server::reservations::{HeldReservation, ReservationBook, ResourceCapacity};
use coordinator_server::error::DetailValue;
use coordinator_server::decisions::{check_decision_scope, check_decisions_resolved, check_expiry, shown_blockers};
use coordinator_server::objectives::check_required_children_done;
use coordinator_server::decisions::{decision_history_limit, decision_page, decision_status};
use coordinator_server::auth::{check_agent_session, check_session_reuse, session_proof, Actor, NewSession, StoredSession};
use coordinator_server::context::{next_action, validate_context_query, ContextAction, ContextPack, ContextQuery};
use coordinator_server::coordination::{
    check_acknowledger, check_acknowledgment, check_checkout, event_cursor, validate_checkout_input,
    CheckoutInput, TaskState,
};
use coordinator_server::decisions::{
    blocks, check_answer_option, check_answerer, check_reopen, check_scope_current,
    validate_answer_input, validate_reopen_input, DecisionAnswerInput, DecisionCycle,
    DecisionReopenInput,
};
use coordinator_server::gateway::{rejection_envelope, request_gate, security_headers, Gate};
use coordinator_server::knowledge::DecisionTaskInput;
use coordinator_server::policy::{
    check_policy_permission, check_policy_revision, updated_policy, validate_policy_input,
    PolicyInput, ProjectPolicy,
};
use coordinator_server::reservations::{
    check_capacity, check_release_authority, check_release_state, check_reservation_start,
    check_resolution, release_holder, reservation_state, validate_reservation_items,
    validate_resource_input, CapacityFacts, HolderFacts, ReservationItem, ResourceInput,
};
use coordinator_server::tasks::{
    check_dependencies, check_edit_authority, check_edit_target, check_lifecycle_actor,
    check_lifecycle_request, check_unblock_target, definition_changed, lifecycle_transition,
    preconditions, resulting_lifecycle, same_items_of, validate_task_edit, validate_task_input,
    DependencyFacts, LifecycleFacts, TaskDefinition, TaskEdit, TaskInput,
};

const A: &str = "0f8fad5b-d9cb-469f-a165-70867728950e";
const B: &str = "7c9e6679-7425-40de-944b-e07fc1f90ae7";

fn s(v: &str) -> String {
    v.to_owned()
}

fn actor(kind: &str, session: Option<&str>) -> Actor {
    Actor {
        id: s("p1"),
        name: s("someone"),
        kind: s(kind),
        role: s(kind),
        credential_id: Some(s("c1")),
        session_id: session.map(s),
        credential_attributes: None,
    }
}

fn task_input() -> TaskInput {
    TaskInput {
        title: s("Write the parser"),
        description: s(""),
        acceptance_criteria: vec![s("It parses")],
        kind: s("code"),
        priority: 2,
        planned: false,
        depends_on: vec![],
    }
}

#[test]
fn task_definitions_are_checked_in_order() {
    assert!(validate_task_input(&task_input()).is_ok());
    let mut t = task_input();
    t.title = s("  ");
    assert_eq!(
        validate_task_input(&t).unwrap_err().message,
        "title must be nonempty and contain at most 300 bytes and no NUL characters."
    );
    let mut t = task_input();
    t.acceptance_criteria = vec![];
    assert_eq!(validate_task_input(&t).unwrap_err().message, "Provide 1–100 acceptance criteria.");
    let mut t = task_input();
    t.kind = s("other");
    assert!(validate_task_input(&t).is_err());
    let mut t = task_input();
    t.priority = 4;
    assert_eq!(
        validate_task_input(&t).unwrap_err().message,
        "kind must be code/general and priority 0 (urgent) through 3 (low)."
    );
    let edit = TaskEdit {
        title: s("t"),
        description: s(""),
        acceptance_criteria: vec![s("c")],
        priority: -1,
        planned: false,
        depends_on: vec![],
        expected_revision: 1,
    };
    assert_eq!(validate_task_edit(&edit).unwrap_err().message, "priority must be between 0 and 3.");
}

#[test]
fn edits_need_the_current_revision_and_an_unowned_task() {
    assert!(check_edit_target(3, 3, false, "planned").is_ok());
    assert_eq!(check_edit_target(3, 2, false, "open").unwrap_err().code, "revision_conflict");
    assert_eq!(check_edit_target(3, 3, true, "open").unwrap_err().code, "task_not_editable");
    assert_eq!(check_edit_target(3, 3, false, "done").unwrap_err().code, "task_not_editable");
    assert!(check_unblock_target(1, 1, false, "open").is_ok());
    assert_eq!(check_unblock_target(1, 1, false, "planned").unwrap_err().code, "task_not_editable");
}

#[test]
fn definition_changes_ignore_prerequisite_order() {
    assert!(same_items_of(&vec![s("a"), s("b"), s("a")], &vec![s("a"), s("a"), s("b")]));
    assert!(!same_items_of(&vec![s("a"), s("b")], &vec![s("a"), s("a")]));
    assert!(!same_items_of(&vec![s("a")], &vec![s("a"), s("a")]));
    let current = TaskDefinition {
        title: s("t"),
        description: s("d"),
        acceptance_criteria: vec![s("c")],
        priority: 1,
        lifecycle: s("open"),
        depends_on: vec![s(A), s(B)],
    };
    let mut edit = TaskEdit {
        title: s("t"),
        description: s("d"),
        acceptance_criteria: vec![s("c")],
        priority: 1,
        planned: false,
        depends_on: vec![s(B), s(A)],
        expected_revision: 1,
    };
    assert!(!definition_changed(&current, &edit));
    edit.planned = true;
    assert!(definition_changed(&current, &edit));
    edit.planned = false;
    edit.acceptance_criteria = vec![s("c"), s("d")];
    assert!(definition_changed(&current, &edit));
}

#[test]
fn agents_edit_definitions_only_with_a_grant_and_never_their_own_work() {
    assert!(check_edit_authority(&actor("human", None), false, true, true).is_ok());
    assert_eq!(check_edit_authority(&actor("agent", None), true, false, false).unwrap_err().status, 403);
    let e = check_edit_authority(&actor("agent", Some("s")), false, false, false).unwrap_err();
    assert_eq!(e.code, "task_definition_grant");
    assert_eq!(e.details.len(), 2);
    assert_eq!(
        check_edit_authority(&actor("agent", Some("s")), true, true, true).unwrap_err().code,
        "self_related_definition_change"
    );
    assert!(check_edit_authority(&actor("agent", Some("s")), true, false, true).is_ok());
}

fn dep(id: &str, exists: bool, cycle: bool) -> DependencyFacts {
    DependencyFacts { id: s(id), exists, creates_cycle: cycle }
}

#[test]
fn prerequisites_are_distinct_known_and_acyclic() {
    assert!(check_dependencies("t", &vec![dep(A, true, false), dep(B, true, false)]).is_ok());
    assert_eq!(
        check_dependencies("t", &vec![dep("t", true, false)]).unwrap_err().message,
        "Dependencies must be distinct and cannot reference this".to_owned() + " task."
    );
    assert!(check_dependencies("t", &vec![dep(A, true, false), dep(A, true, false)]).is_err());
    assert_eq!(
        check_dependencies("t", &vec![dep(A, false, true)]).unwrap_err().message,
        "Every dependency must identify a task in this project."
    );
    assert_eq!(check_dependencies("t", &vec![dep(A, true, true)]).unwrap_err().code, "dependency_cycle");
    let many: Vec<DependencyFacts> = (0..101).map(|i| dep(&format!("d{i}"), true, false)).collect();
    assert_eq!(
        check_dependencies("t", &many).unwrap_err().message,
        "A task may have at most 100 direct prerequisites."
    );
}

fn facts(lifecycle: &str) -> LifecycleFacts {
    LifecycleFacts {
        lifecycle: s(lifecycle),
        revision: 4,
        has_attempt: false,
        archived: false,
        deleted: false,
        workflow_links: 0,
        history_links: 0,
    }
}

#[test]
fn lifecycle_actions_follow_the_task_state() {
    assert_eq!(lifecycle_transition("archive", 4, &facts("open")).unwrap(), "task.archived");
    assert_eq!(lifecycle_transition("cancel", 4, &facts("planned")).unwrap(), "task.canceled");
    assert_eq!(lifecycle_transition("delete", 4, &facts("canceled")).unwrap(), "task.deleted");
    assert_eq!(
        lifecycle_transition("cancel", 4, &facts("done")).unwrap_err().code,
        "task_lifecycle_invalid"
    );
    assert_eq!(lifecycle_transition("delete", 4, &facts("open")).unwrap_err().status, 400);
    assert_eq!(lifecycle_transition("archive", 3, &facts("open")).unwrap_err().code, "task_revision_changed");
    let mut archived = facts("open");
    archived.archived = true;
    assert_eq!(lifecycle_transition("cancel", 4, &archived).unwrap_err().code, "task_archived");
    assert_eq!(lifecycle_transition("restore", 4, &archived).unwrap(), "task.restored");
    assert_eq!(
        lifecycle_transition("restore", 4, &facts("open")).unwrap_err().code,
        "task_lifecycle_invalid"
    );
    let mut linked = facts("planned");
    linked.history_links = 1;
    assert_eq!(lifecycle_transition("delete", 4, &linked).unwrap_err().code, "task_history_protected");
    let mut owned = facts("open");
    owned.has_attempt = true;
    assert_eq!(lifecycle_transition("archive", 4, &owned).unwrap_err().code, "task_attempt_protected");
    let mut gone = facts("open");
    gone.deleted = true;
    assert_eq!(lifecycle_transition("archive", 4, &gone).unwrap_err().status, 404);
    assert_eq!(resulting_lifecycle("cancel", "open"), "canceled");
    assert_eq!(resulting_lifecycle("archive", "open"), "open");
}

#[test]
fn agents_take_only_delegated_lifecycle_actions() {
    assert!(check_lifecycle_actor(&actor("human", None), "delete", false, "manual").is_ok());
    let e = check_lifecycle_actor(&actor("agent", Some("s")), "cancel", false, "agent").unwrap_err();
    assert_eq!(e.code, "task_cancel");
    assert!(check_lifecycle_actor(&actor("agent", Some("s")), "cancel", true, "manual").is_ok());
    assert!(check_lifecycle_actor(&actor("agent", Some("s")), "unblock", false, "agent").is_ok());
    assert_eq!(check_lifecycle_actor(&actor("agent", None), "unblock", false, "agent").unwrap_err().status, 403);
    assert!(check_lifecycle_request("cancel", "t", Some("u"), true).is_ok());
    assert_eq!(
        check_lifecycle_request("archive", "t", Some("u"), true).unwrap_err().message,
        "replacement_task_id applies only to cancel."
    );
    assert_eq!(
        check_lifecycle_request("cancel", "t", Some("t"), true).unwrap_err().message,
        "A task cannot replace itself."
    );
    assert!(check_lifecycle_request("cancel", "t", Some("u"), false).is_err());
}

fn open_task() -> TaskState {
    TaskState {
        lifecycle: s("open"),
        has_current_attempt: false,
        attempt_state: None,
        attempt_expires: None,
        owner_authorized: false,
        decisions_ready: true,
        objective_children_ready: true,
        workflow_status: None,
        workflow_phase: None,
        is_workflow_activity: false,
        has_blocked_reason: false,
        dependencies_ready: true,
    }
}

#[test]
fn preconditions_list_what_stands_in_the_way() {
    assert!(preconditions(&open_task(), false, None, 0).items.is_empty());
    let mut t = open_task();
    t.lifecycle = s("planned");
    t.dependencies_ready = false;
    t.has_current_attempt = true;
    t.workflow_phase = Some(s("integration"));
    let p = preconditions(&t, true, Some("waiting on hardware"), 10);
    let codes: Vec<&str> = p.items.iter().map(|i| i.code.as_str()).collect();
    assert_eq!(
        codes,
        vec![
            "task_not_open",
            "task_archived",
            "task_blocked",
            "dependencies_incomplete",
            "recovery_inspection_required",
            "workflow_activity_required"
        ]
    );
    assert_eq!(p.items[0].message, "Task lifecycle is planned.");
    assert_eq!(p.items[2].message, "waiting on hardware");
    assert!(p.integration_preflight);
}

fn policy() -> ProjectPolicy {
    ProjectPolicy {
        review_mode: s("agent"),
        recovery_mode: s("agent"),
        lease_seconds: 600,
        rules: s(""),
        agent_rule_editing: true,
        automatic_integration: false,
        allow_subagent_reviews: false,
        policy_revision: 7,
    }
}

fn policy_input() -> PolicyInput {
    PolicyInput {
        review_mode: s("agent"),
        recovery_mode: s("agent"),
        lease_seconds: 900,
        rules: s("Keep tests green."),
        provenance: s(""),
        agent_rule_editing: true,
        automatic_integration: false,
        allow_subagent_reviews: None,
        expected_revision: 7,
    }
}

#[test]
fn policies_are_bounded_and_agents_cannot_widen_them() {
    assert!(validate_policy_input(&policy_input()).is_ok());
    let mut bad = policy_input();
    bad.lease_seconds = 29;
    assert_eq!(
        validate_policy_input(&bad).unwrap_err().message,
        "Invalid review/recovery mode or lease_seconds (30–3600)."
    );
    let mut bad = policy_input();
    bad.review_mode = s("maybe");
    assert!(validate_policy_input(&bad).is_err());
    assert!(check_policy_permission("agent", &policy(), &policy_input()).is_ok());
    let mut widen = policy_input();
    widen.review_mode = s("none");
    assert_eq!(
        check_policy_permission("agent", &policy(), &widen).unwrap_err().code,
        "policy_permission_change"
    );
    assert!(check_policy_permission("human", &policy(), &widen).is_ok());
    let mut subagents = policy_input();
    subagents.allow_subagent_reviews = Some(true);
    assert!(check_policy_permission("agent", &policy(), &subagents).is_err());
    assert_eq!(check_policy_revision(7, 6, 0).unwrap_err().code, "revision_conflict");
    assert_eq!(check_policy_revision(7, 7, 1).unwrap_err().code, "policy_hold_conflict");
    let after = updated_policy(&policy(), &policy_input());
    assert_eq!(after.policy_revision, 8);
    assert_eq!(after.lease_seconds, 900);
    assert!(!after.allow_subagent_reviews);
    assert_eq!(after.rules, "Keep tests green.");
}

#[test]
fn resources_and_reservations_are_checked() {
    let r = ResourceInput { key: s("gpu:a100"), capacity: 2, description: s("") };
    assert!(validate_resource_input(&r).is_ok());
    let r = ResourceInput { key: s("GPU"), capacity: 2, description: s("") };
    assert!(validate_resource_input(&r).is_err());
    let r = ResourceInput { key: s("gpu"), capacity: 0, description: s("") };
    assert_eq!(validate_resource_input(&r).unwrap_err().message, "capacity must be between 1 and 1000.");
    let items = vec![ReservationItem { resource_id: s(A), units: 1 }, ReservationItem { resource_id: s(B), units: 1000 }];
    assert!(validate_reservation_items(&items).is_ok());
    assert_eq!(validate_reservation_items(&vec![]).unwrap_err().message, "Provide 1–100 reservation items.");
    let bad = vec![ReservationItem { resource_id: s("x"), units: 1 }];
    assert_eq!(validate_reservation_items(&bad).unwrap_err().message, "resource_id must be a UUID.");
    let twice = vec![ReservationItem { resource_id: s(A), units: 1 }, ReservationItem { resource_id: s(A), units: 1 }];
    assert!(validate_reservation_items(&twice).is_err());
    assert!(check_reservation_start("work", 0).is_ok());
    assert_eq!(check_reservation_start("recovery", 0).unwrap_err().code, "recovery_unresolved");
    assert_eq!(check_reservation_start("work", 1).unwrap_err().code, "reservation_exists");
}

#[test]
fn a_reservation_takes_the_whole_set_or_nothing() {
    let fits = vec![CapacityFacts { units: 1, capacity: Some(2), used: 1 }];
    assert!(check_capacity(&fits).is_ok());
    let full = vec![
        CapacityFacts { units: 1, capacity: Some(4), used: 0 },
        CapacityFacts { units: 2, capacity: Some(2), used: 1 },
    ];
    assert_eq!(check_capacity(&full).unwrap_err().code, "resource_unavailable");
    let missing = vec![CapacityFacts { units: 1, capacity: None, used: 0 }];
    assert_eq!(check_capacity(&missing).unwrap_err().status, 404);
}

#[test]
fn reservation_state_release_and_resolution() {
    let holder = HolderFacts {
        attempt_state: s("active"),
        attempt_expires_at: 100,
        is_current_attempt: true,
        principal_disabled: false,
        has_credential: true,
        credential_revoked: false,
        credential_expires: None,
        session_closed: false,
        browser_revoked: false,
        browser_expires: None,
    };
    assert_eq!(reservation_state("held", &holder, 50), "held");
    assert_eq!(reservation_state("held", &holder, 100), "recovery_required");
    assert_eq!(reservation_state("released", &holder, 100), "released");
    assert_eq!(release_holder(None).unwrap_err().code, "lease_expired");
    assert_eq!(release_holder(Some("a")).unwrap(), "a");
    assert!(check_release_authority("a", "work", "t", "a", "t").is_ok());
    assert!(check_release_authority("b", "recovery", "t", "a", "t").is_ok());
    assert!(check_release_authority("b", "work", "t", "a", "t").is_err());
    assert_eq!(check_release_state("released", 0).unwrap_err().code, "reservation_not_held");
    assert_eq!(check_release_state("held", 1).unwrap_err().code, "jobs_still_running");
    assert!(check_resolution("human", Some("held")).is_ok());
    assert_eq!(check_resolution("agent", Some("held")).unwrap_err().status, 403);
    assert_eq!(check_resolution("human", None).unwrap_err().status, 404);
}

#[test]
fn decisions_are_answered_by_the_required_actor_within_their_scope() {
    let answer = DecisionAnswerInput {
        disposition: s("allow"),
        answer: s("yes"),
        rationale: s("checked"),
        conditions_confirmed: false,
        expected_generation: 1,
    };
    assert_eq!(
        validate_answer_input(&answer).unwrap_err().message,
        "An allow answer must explicitly confirm the recorded conditions and environment."
    );
    let deny = DecisionAnswerInput { disposition: s("deny"), ..answer };
    assert!(validate_answer_input(&deny).is_ok());
    assert!(check_answerer(1, 1, "either", &actor("agent", Some("s"))).is_ok());
    assert_eq!(check_answerer(2, 1, "either", &actor("human", None)).unwrap_err().code, "generation_conflict");
    assert!(check_answerer(1, 1, "human", &actor("agent", Some("s"))).is_err());
    assert!(check_answerer(1, 1, "agent", &actor("agent", None)).is_err());
    assert_eq!(check_scope_current(Some(5), 5, 1, 1, 0).unwrap_err().code, "decision_expired");
    assert_eq!(check_scope_current(None, 5, 2, 1, 0).unwrap_err().code, "decision_scope_stale");
    assert!(check_scope_current(Some(6), 5, 1, 1, 0).is_ok());
    assert!(check_answer_option(&vec![s("yes"), s("no")], "no").is_ok());
    assert!(check_answer_option(&vec![s("yes"), s("no")], "No").is_err());
    let reopen = DecisionReopenInput {
        rationale: s("scope moved"),
        environment: s(""),
        conditions: s(""),
        affected_tasks: vec![DecisionTaskInput { task_id: s("t"), task_revision: 2 }],
        policy_revision: 0,
        expires_at: None,
        expected_generation: 1,
    };
    assert_eq!(validate_reopen_input(&reopen).unwrap_err().message, "Use a positive current policy_revision.");
    assert_eq!(check_reopen(Some(1), 1, 1, 1).unwrap_err().message, "expires_at must be in the future.");
    assert_eq!(check_reopen(None, 1, 2, 1).unwrap_err().code, "generation_conflict");
    let cycle = DecisionCycle {
        policy_revision: 3,
        project_policy_revision: 3,
        changed_tasks: 0,
        answer: Some((s("allow"), true)),
        expires_at: None,
    };
    assert!(!blocks(&cycle, 0));
    assert!(blocks(&DecisionCycle { answer: Some((s("deny"), true)), ..cycle }, 0));
}

#[test]
fn context_packing_respects_budget_and_limit() {
    let q = ContextQuery {
        q: s("flaky test"),
        limit: None,
        budget: Some(1000),
        include_shared: false,
        task_id: None,
        component: None,
        environment: None,
        version: None,
    };
    assert!(validate_context_query(&q).is_err());
    let q = ContextQuery { budget: None, ..q };
    let b = validate_context_query(&q).unwrap();
    assert_eq!((b.limit, b.budget), (20, 32768));
    let mut p = ContextPack::start(100, 1024);
    assert!(p.offer(900, 2, 1024));
    assert!(!p.offer(100, 2, 1024));
    assert!(p.truncated);
    assert_eq!(p.used, 1000);
    assert_eq!(next_action(&p), ContextAction::RefineOrIncreaseBudget);
    let mut tight = ContextPack::start(2000, 1024);
    assert!(!tight.offer(1, 2, 1024));
    assert_eq!(next_action(&tight), ContextAction::IncreaseBudget);
    let mut empty = ContextPack::start(10, 1024);
    empty.finish(2);
    assert_eq!(next_action(&empty), ContextAction::Broaden);
}

#[test]
fn the_gate_authenticates_everything_but_public_pages() {
    assert_eq!(request_gate("GET", "/healthz"), Gate::Public);
    assert_eq!(request_gate("POST", "/healthz"), Gate::Principal);
    assert_eq!(request_gate("POST", "/api/v1/auth/login"), Gate::Public);
    assert_eq!(request_gate("GET", "/api/v1/reporters/x/jobs"), Gate::Reporter);
    assert_eq!(request_gate("GET", "/api/v1/nope"), Gate::Principal);
    assert_eq!(rejection_envelope(413, false).unwrap().code, "payload_too_large");
    assert_eq!(rejection_envelope(422, false).unwrap().status, 400);
    assert!(rejection_envelope(422, true).is_none());
    assert!(rejection_envelope(500, false).is_none());
    assert_eq!(security_headers(false).len(), 6);
    assert_eq!(security_headers(true)[6].0, "strict-transport-security");
}

#[test]
fn checkouts_acknowledgments_and_sessions() {
    let c = CheckoutInput {
        workstation_id: s("ws"),
        identity: s("repo"),
        path: s("/w"),
        branch: s("b"),
        base_revision: s("abc"),
        clean: false,
    };
    assert_eq!(validate_checkout_input(&c).unwrap_err().code, "dirty_checkout");
    assert!(check_checkout("work", "agent", "ws", "ws", 0, 0).is_ok());
    assert_eq!(check_checkout("recovery", "agent", "ws", "ws", 0, 0).unwrap_err().code, "recovery_unresolved");
    assert_eq!(check_checkout("work", "agent", "ws", "other", 0, 0).unwrap_err().status, 403);
    assert_eq!(check_checkout("work", "human", "ws", "other", 1, 0).unwrap_err().code, "checkout_in_use");
    assert_eq!(check_checkout("work", "human", "ws", "ws", 0, 1).unwrap_err().code, "checkout_registered");
    assert_eq!(event_cursor(None).unwrap(), 0);
    assert_eq!(event_cursor(Some("-4")).unwrap(), -4);
    assert_eq!(event_cursor(Some("x")).unwrap_err().message, "Invalid event cursor.");
    assert!(check_acknowledger(&actor("agent", Some("s1")), "s1").is_ok());
    assert!(check_acknowledger(&actor("human", Some("s1")), "s1").is_err());
    assert!(check_acknowledgment(3, 3, "coordination-v8", &vec![s("rules")], "rules").is_ok());
    assert_eq!(
        check_acknowledgment(3, 2, "coordination-v8", &vec![s("rules")], "rules").unwrap_err().code,
        "policy_changed"
    );
    assert!(check_acknowledgment(3, 3, "coordination-v8", &vec![], "rules").is_err());
    assert!(check_agent_session("h", "h", false, false).is_ok());
    assert!(check_agent_session("h", "h", false, true).is_err());
    assert!(check_agent_session("h", "h", true, true).is_ok());
    assert!(check_agent_session("h", "g", true, false).is_err());
    let proof = "p".repeat(32);
    assert_eq!(session_proof(&vec![Some(proof.clone())]).unwrap().len(), 64);
    assert_eq!(session_proof(&vec![]).unwrap_err().message, "A random session proof is required.");
    assert_eq!(session_proof(&vec![Some(s("short"))]).unwrap_err().status, 400);
    let input = NewSession {
        session_id: s("s1"),
        workstation_id: s("ws"),
        harness: s("h"),
        capabilities: vec![s("git")],
    };
    let stored = StoredSession {
        principal_id: s("p1"),
        credential_id: s("c1"),
        proof_hash: s("d"),
        workstation_id: s("ws"),
        harness: s("h"),
        capabilities: vec![s("git")],
        closed: false,
    };
    assert!(check_session_reuse(&stored, &actor("agent", None), "d", &input).is_ok());
    assert_eq!(
        check_session_reuse(&stored, &actor("agent", None), "e", &input).unwrap_err().code,
        "session_conflict"
    );
    let closed = StoredSession { closed: true, ..stored };
    assert_eq!(check_session_reuse(&closed, &actor("agent", None), "d", &input).unwrap_err().code, "session_closed");
}

#[test]
fn decision_status_and_listing_queries() {
    let cycle = DecisionCycle {
        policy_revision: 3,
        project_policy_revision: 3,
        changed_tasks: 0,
        answer: Some((s("allow"), true)),
        expires_at: Some(10),
    };
    assert_eq!(decision_status(&cycle, 5), "allowed");
    assert_eq!(decision_status(&cycle, 10), "expired");
    let unconfirmed = DecisionCycle { answer: Some((s("allow"), false)), expires_at: None, ..cycle };
    assert_eq!(decision_status(&unconfirmed, 0), "deferred");
    let denied = DecisionCycle { answer: Some((s("deny"), true)), ..unconfirmed };
    assert_eq!(decision_status(&denied, 0), "denied");
    let moved = DecisionCycle { project_policy_revision: 4, answer: None, ..denied };
    assert_eq!(decision_status(&moved, 0), "stale");
    let open = DecisionCycle { project_policy_revision: 3, ..moved };
    assert_eq!(decision_status(&open, 0), "pending");
    assert_eq!(decision_page(None, None, None).unwrap(), (50, None));
    assert_eq!(decision_page(Some(5), Some("allowed"), Some("17:abc")).unwrap(), (5, Some((17, s("abc")))));
    assert_eq!(decision_page(None, Some("maybe"), None).unwrap_err().message, "Invalid decision status filter.");
    assert_eq!(decision_page(None, None, Some("x:abc")).unwrap_err().message, "Invalid decision cursor.");
    assert_eq!(decision_page(Some(0), None, None).unwrap_err().message, "limit must be between 1 and 200.");
    assert_eq!(decision_history_limit(None, None).unwrap(), 50);
    assert!(decision_history_limit(Some(0), None).is_err());
}

#[test]
fn refusals_name_at_most_twenty_blockers() {
    let ids: Vec<String> = (0..21).map(|i| format!("d{i:02}")).collect();
    let (shown, truncated) = shown_blockers(&ids);
    assert_eq!(shown.len(), 20);
    assert!(truncated);
    assert_eq!(shown[19], "d19");
    let (few, more) = shown_blockers(&ids[..3].to_vec());
    assert_eq!(few, vec![s("d00"), s("d01"), s("d02")]);
    assert!(!more);
    assert!(check_decisions_resolved(0).is_ok());
    assert_eq!(check_decisions_resolved(2).unwrap_err().code, "decision_required");
    assert!(check_required_children_done(&vec![]).is_ok());
    assert_eq!(check_required_children_done(&vec![s("c1")]).unwrap_err().code, "objective_children_incomplete");
}

fn scope_task(id: &str, revision: i64) -> DecisionTaskInput {
    DecisionTaskInput { task_id: id.to_owned(), task_revision: revision }
}

#[test]
fn new_decisions_expire_in_the_future() {
    assert!(check_expiry(None, 100).is_ok());
    assert!(check_expiry(Some(101), 100).is_ok());
    assert_eq!(check_expiry(Some(100), 100).err().unwrap().message, "expires_at must be in the future.");
}

#[test]
fn decision_scope_names_current_revisions() {
    let tasks = vec![scope_task("a", 2), scope_task("b", 5)];
    assert!(check_decision_scope(3, 3, &tasks, &vec![Some(2), Some(5)], 0).is_ok());
    let e = check_decision_scope(4, 3, &tasks, &vec![Some(2), Some(5)], 0).err().unwrap();
    assert_eq!(e.code, "revision_conflict");
    assert!(e.message.contains("project policy"));
    let e = check_decision_scope(3, 3, &tasks, &vec![None, Some(4)], 0).err().unwrap();
    assert_eq!(e.message, "Every affected task must belong to the project.");
    let e = check_decision_scope(3, 3, &tasks, &vec![Some(2), Some(6)], 0).err().unwrap();
    assert_eq!(e.status, 409);
    assert!(e.message.contains("affected task"));
    let e = check_decision_scope(3, 3, &tasks, &vec![Some(2), Some(5)], 1).err().unwrap();
    assert_eq!(e.code, "policy_hold_conflict");
}

#[test]
fn incomplete_children_are_named_up_to_twenty() {
    let three = vec![s("c1"), s("c2"), s("c3")];
    let e = check_required_children_done(&three).unwrap_err();
    assert_eq!(e.status, 409);
    assert_eq!(e.details[0].key, "task_ids");
    assert_eq!(e.details[0].value, DetailValue::Texts(three.clone()));
    assert_eq!(e.details[1].key, "truncated");
    assert_eq!(e.details[1].value, DetailValue::Flag(false));
    let many: Vec<String> = (0..21).map(|i| format!("c{i:02}")).collect();
    let e = check_required_children_done(&many).unwrap_err();
    assert_eq!(e.details[0].value, DetailValue::Texts(many[..20].to_vec()));
    assert_eq!(e.details[1].value, DetailValue::Flag(true));
}

const GPU: &str = "7c9e6679-7425-40de-944b-e07fc1f90ae7";
const DISK: &str = "16fd2706-8baf-433b-82eb-8c7fada847da";

fn ask(resource: &str, units: i64) -> ReservationItem {
    ReservationItem { resource_id: resource.to_owned(), units }
}

#[test]
fn reservations_are_all_or_nothing_within_capacity() {
    let mut book = ReservationBook {
        resources: vec![
            ResourceCapacity { id: s(GPU), capacity: 2 },
            ResourceCapacity { id: s(DISK), capacity: 10 },
        ],
        held: vec![HeldReservation { attempt_id: s("a0"), items: vec![ask(GPU, 1)] }],
    };
    assert!(book.reserve("a1", "work", vec![ask(GPU, 1), ask(DISK, 4)]).is_ok());
    assert_eq!(book.held.len(), 2);
    assert_eq!(book.held[1].items.len(), 2);
    let e = book.reserve("a2", "work", vec![ask(DISK, 1), ask(GPU, 1)]).unwrap_err();
    assert_eq!(e.code, "resource_unavailable");
    assert_eq!(book.held.len(), 2);
    let e = book.reserve("a1", "work", vec![ask(DISK, 1)]).unwrap_err();
    assert_eq!(e.code, "reservation_exists");
    let e = book.reserve("a3", "recovery", vec![ask(DISK, 1)]).unwrap_err();
    assert_eq!(e.code, "recovery_unresolved");
    let e = book.reserve("a3", "work", vec![ask(A, 1)]).unwrap_err();
    assert_eq!(e.status, 404);
    let e = book.reserve("a3", "work", vec![ask(DISK, 1), ask(DISK, 1)]).unwrap_err();
    assert_eq!(e.status, 400);
    assert!(book.reserve("a3", "work", vec![ask(DISK, 6)]).is_ok());
    assert_eq!(book.held.len(), 3);
}
