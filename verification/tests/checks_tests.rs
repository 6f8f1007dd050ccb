use coordinator_server::error::DetailValue;
use coordinator_server::history::{JsonField, JsonTree};
use coordinator_server::jobs::{apply_observation, JobRecord, JobStatus, ObservationOutcome};
use coordinator_server::coordination::{event_cursor, event_next_cursor};
use coordinator_server::auth::Actor;
use coordinator_server::coordination::{
    admin_or_operator, check_checkpoint, check_claim_gate, check_claim_target, check_contributors,
    check_recovery_resolution, check_release, lease_remaining, renew_after_remaining,
    renew_after_seconds, task_definition_grant_input, CheckpointText, ClaimRequest,
    ContributorFacts, TaskDefinitionGrantInput,
};
use coordinator_server::jobs::{
    check_producer, reporter_renew_after, require_reporter, validate_job_input,
    validate_observation, JobInput, ObservationInput, ProducerFacts, ReporterAuth,
};
use coordinator_server::mutation::{mutation_key, new_receipt, receipt_outcome, ReceiptOutcome};
use coordinator_server::reservations::check_resource_creation;

const A: &str = "0f8fad5b-d9cb-469f-a165-70867728950e";
const B: &str = "7c9e6679-7425-40de-944b-e07fc1f90ae7";

fn s(v: &str) -> String {
    v.to_owned()
}

fn actor(kind: &str) -> Actor {
    Actor {
        id: s("p1"),
        name: s("n"),
        kind: s(kind),
        role: s(kind),
        credential_id: None,
        session_id: Some(s("s1")),
        credential_attributes: None,
    }
}

fn claim(mode: &str, revision: i64) -> ClaimRequest {
    ClaimRequest {
        mode: s(mode),
        task_id: None,
        expected_task_revision: None,
        policy_revision: revision,
        instruction_version: s("coordination-v8"),
    }
}

#[test]
fn claims_pass_the_policy_instruction_and_recovery_checks() {
    assert!(check_claim_gate(&claim("work", 2), 2, "agent", true, false).is_ok());
    assert_eq!(check_claim_gate(&claim("work", 1), 2, "agent", true, false).unwrap_err().code, "policy_changed");
    assert_eq!(
        check_claim_gate(&claim("work", 2), 2, "agent", false, false).unwrap_err().code,
        "instructions_required"
    );
    assert_eq!(check_claim_gate(&claim("recovery", 2), 2, "agent", true, true).unwrap_err().code, "manual_recovery");
    assert!(check_claim_gate(&claim("recovery", 2), 2, "human", false, true).is_ok());
    assert!(check_claim_target("work", false, Some(3), 3, "ready", JsonTree::Null).is_ok());
    assert_eq!(check_claim_target("work", true, None, 3, "ready", JsonTree::Null).unwrap_err().code, "task_archived");
    assert_eq!(check_claim_target("work", false, Some(2), 3, "ready", JsonTree::Null).unwrap_err().code, "revision_conflict");
    let task = JsonTree::Object(vec![JsonField { key: s("id"), value: JsonTree::Text(s("t1")) }]);
    let e = check_claim_target("recovery", false, None, 3, "ready", task).unwrap_err();
    assert_eq!(e.code, "claim_conflict");
    assert_eq!(e.details[0].key, "task");
    assert_eq!(
        e.details[0].value,
        DetailValue::Json(JsonTree::Object(vec![JsonField { key: s("id"), value: JsonTree::Text(s("t1")) }]))
    );
    assert!(check_claim_target("recovery", false, None, 3, "recovery_required", JsonTree::Null).is_ok());
}

#[test]
fn leases_and_renewal_hints() {
    assert_eq!(renew_after_seconds(90), 30);
    assert_eq!(renew_after_seconds(3600), 60);
    assert_eq!(lease_remaining(100, 40), 60);
    assert_eq!(lease_remaining(100, 140), 0);
    assert_eq!(renew_after_remaining(30_000), 10);
    assert_eq!(renew_after_remaining(600_000), 60);
    assert_eq!(reporter_renew_after(0), 0);
    assert_eq!(reporter_renew_after(2), 1);
    assert_eq!(reporter_renew_after(600), 60);
}

#[test]
fn checkpoints_recovery_and_release() {
    let c = CheckpointText { summary: s("done parsing"), current_action: s(""), next_step: s(""), blockers: vec![] };
    assert!(check_checkpoint(&c).is_ok());
    let many = CheckpointText { blockers: (0..51).map(|i| format!("b{i}")).collect(), ..c };
    assert_eq!(check_checkpoint(&many).unwrap_err().message, "Use at most 50 blockers.");
    assert!(check_recovery_resolution("inspected", "resume", true, true).is_ok());
    assert!(check_recovery_resolution("inspected", "resume", false, true).is_err());
    assert!(check_recovery_resolution("inspected", "abandon", true, true).is_err());
    assert!(check_recovery_resolution("", "resume", true, true).is_err());
    assert!(check_release("work", false).is_ok());
    assert!(check_release("recovery", true).is_ok());
    assert_eq!(check_release("recovery", false).unwrap_err().code, "recovery_unresolved");
    let ok = ContributorFacts { session_id: s("sub-1"), registered: true };
    assert!(check_contributors(&vec![ok]).is_ok());
    let stranger = ContributorFacts { session_id: s("sub-2"), registered: false };
    assert_eq!(
        check_contributors(&vec![stranger]).unwrap_err().message,
        "Contributors must be registered subagent sessions of this principal and project."
    );
    let many: Vec<ContributorFacts> = (0..51).map(|i| ContributorFacts { session_id: format!("c{i}"), registered: true }).collect();
    assert_eq!(check_contributors(&many).unwrap_err().message, "Use at most 50 contributor sessions.");
}

#[test]
fn administration_and_grants_are_human_matters() {
    assert!(admin_or_operator(&actor("human")).is_ok());
    let e = admin_or_operator(&actor("agent")).unwrap_err();
    assert_eq!(e.code, "project_administration");
    let principal = TaskDefinitionGrantInput { target_kind: s("principal"), agent_principal_id: Some(s("p")), agent_role: None };
    assert!(task_definition_grant_input(&principal).is_ok());
    let role = TaskDefinitionGrantInput { target_kind: s("role"), agent_principal_id: None, agent_role: Some(s("agent")) };
    assert!(task_definition_grant_input(&role).is_ok());
    let both = TaskDefinitionGrantInput { target_kind: s("role"), agent_principal_id: Some(s("p")), agent_role: Some(s("agent")) };
    assert!(task_definition_grant_input(&both).is_err());
    assert!(check_resource_creation("human", false).is_ok());
    assert_eq!(check_resource_creation("agent", false).unwrap_err().status, 403);
    assert_eq!(check_resource_creation("human", true).unwrap_err().code, "resource_exists");
}

fn observation(state: &str) -> ObservationInput {
    ObservationInput {
        sequence: 1,
        producer_id: s(A),
        state: s(state),
        pid: Some(42),
        process_started_at: None,
        exit_code: None,
        inputs_unchanged: None,
        summary: s(""),
    }
}

#[test]
fn observations_carry_consistent_results() {
    assert!(validate_observation(&observation("running")).is_ok());
    let done = ObservationInput { exit_code: Some(0), inputs_unchanged: Some(true), ..observation("succeeded") };
    assert!(validate_observation(&done).is_ok());
    let odd = ObservationInput { exit_code: Some(1), inputs_unchanged: Some(true), ..observation("succeeded") };
    assert!(validate_observation(&odd).is_err());
    let exit = ObservationInput { exit_code: Some(1), ..observation("running") };
    assert_eq!(
        validate_observation(&exit).unwrap_err().message,
        "Only succeeded or failed observations include an exit_code."
    );
    let bad_id = ObservationInput { producer_id: s("x"), ..observation("running") };
    assert_eq!(validate_observation(&bad_id).unwrap_err().message, "producer_id must be a UUID.");
}

fn job() -> JobInput {
    JobInput {
        job_id: s(A),
        producer_id: s(B),
        runner_instance_id: s(A),
        reservation_id: s(B),
        reporter_id: s(A),
        workstation_id: s("ws-1"),
        label: s("tests"),
        source_revision: s("abc"),
        source_tree: s("def"),
        reporter_proof: "0a".repeat(32),
        renew_for_seconds: 600,
        generation: 1,
    }
}

#[test]
fn jobs_and_producers_are_checked() {
    assert!(validate_job_input(&job()).is_ok());
    let bad = JobInput { job_id: s("nope"), ..job() };
    assert_eq!(validate_job_input(&bad).unwrap_err().message, "job_id must be a UUID.");
    let short = JobInput { reporter_proof: s("0a"), ..job() };
    assert!(validate_job_input(&short).is_err());
    let long = JobInput { renew_for_seconds: 3601, ..job() };
    assert!(validate_job_input(&long).is_err());
    let facts = ProducerFacts {
        attempt_mode: s("work"),
        actor_kind: s("agent"),
        checkout_workstation: Some(s("ws-1")),
        session_workstation: s("ws-1"),
        reservation_held: true,
        identity_in_use: false,
        has_credential: true,
    };
    assert!(check_producer(&facts, "ws-1").is_ok());
    assert_eq!(check_producer(&facts, "ws-2").unwrap_err().status, 403);
    let unheld = ProducerFacts { reservation_held: false, ..facts };
    assert_eq!(check_producer(&unheld, "ws-1").unwrap_err().code, "reservation_required");
    let reporter = ReporterAuth::new(s(A), s("h"));
    assert!(require_reporter(&reporter, A).is_ok());
    assert_eq!(require_reporter(&reporter, B).unwrap_err().status, 401);
}

#[test]
fn idempotency_keys_and_receipts() {
    assert_eq!(mutation_key(&vec![Some(s("key-1"))]).unwrap(), "key-1");
    assert_eq!(mutation_key(&vec![]).unwrap_err().message, "Provide exactly one Idempotency-Key header.");
    assert!(mutation_key(&vec![Some(s("has space"))]).is_err());
    let receipt = new_receipt(&actor("agent"), "POST /x", "key-1", "fp", "{\"ok\":true}", 1000);
    assert!(matches!(receipt_outcome(None, "fp", 1000), Ok(ReceiptOutcome::Fresh)));
    match receipt_outcome(Some(&receipt), "fp", 2000) {
        Ok(ReceiptOutcome::Replay(v)) => assert_eq!(v, "{\"ok\":true}"),
        _ => panic!("a stored result replays"),
    }
    assert_eq!(receipt_outcome(Some(&receipt), "other", 2000).err().unwrap().code, "idempotency_conflict");
    assert_eq!(
        receipt_outcome(Some(&receipt), "fp", 1000 + 2_592_000_001).err().unwrap().code,
        "idempotency_receipt_expired"
    );
}

#[test]
fn event_cursors_read_back_as_sequence_numbers() {
    assert_eq!(event_next_cursor(981), "981");
    assert_eq!(event_cursor(Some(&event_next_cursor(981))).unwrap(), 981);
    assert_eq!(event_cursor(Some(&event_next_cursor(i64::MIN))).unwrap(), i64::MIN);
    assert_eq!(event_cursor(None).unwrap(), 0);
}

#[test]
fn recorded_observations_become_the_jobs_state() {
    let mut job = JobStatus {
        record: JobRecord { producer_id: s(A), state: s("registered"), last_sequence: 0 },
        last_observed_at: None,
        pid: None,
        process_started_at: None,
        exit_code: None,
        inputs_unchanged: None,
        summary: s(""),
    };
    let running = ObservationInput { summary: s("building"), ..observation("running") };
    assert!(matches!(apply_observation(&mut job, &running, false, false, 100), Ok(ObservationOutcome::Record)));
    assert_eq!(job.record.state, "running");
    assert_eq!(job.record.last_sequence, 1);
    assert_eq!(job.last_observed_at, Some(100));
    assert_eq!(job.pid, Some(42));
    assert_eq!(job.summary, "building");
    assert!(matches!(apply_observation(&mut job, &running, true, true, 200), Ok(ObservationOutcome::Replay)));
    assert_eq!(job.last_observed_at, Some(100));
    let stale = ObservationInput { summary: s("other"), ..observation("running") };
    assert_eq!(apply_observation(&mut job, &stale, false, true, 300).err().unwrap().code, "observation_sequence_conflict");
    assert_eq!(job.summary, "building");
    let done = ObservationInput { sequence: 2, exit_code: Some(0), ..observation("succeeded") };
    assert!(apply_observation(&mut job, &done, false, true, 400).is_ok());
    assert_eq!(job.exit_code, Some(0));
    let late = ObservationInput { sequence: 3, ..observation("running") };
    assert_eq!(apply_observation(&mut job, &late, false, true, 500).err().unwrap().code, "job_terminal");
    assert_eq!(job.record.state, "succeeded");
}
