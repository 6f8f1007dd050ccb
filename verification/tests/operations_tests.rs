use coordinator_server::error::DetailValue;
use coordinator_server::backup::{check_manifest_projection, ArtifactRecord, EligibleArtifactRow};
use coordinator_server::jobs::reporter_credential;
use coordinator_server::backup::private_mode_ok;
use coordinator_server::jobs::{check_quiescent, check_reporter_renewal};
use coordinator_server::backup::{
    check_deadline, reject_repository_overlap, retention_plan, validate_reason, validate_uuid,
};
use coordinator_server::coordination::{
    check_claim_request, check_ownership, status, AttemptState, ClaimRequest, OwnedTask, TaskState,
};
use coordinator_server::jobs::{
    decide_observation, reporter_extension, JobRecord, ObservationOutcome,
};
use coordinator_server::maintenance::{receipt_cutoff, validate_options, MaintenanceOptions, MaintenanceTally, BatchResult};
use coordinator_server::auth::Actor;

fn components(path: &[&str]) -> Vec<Vec<char>> {
    path.iter().map(|p| p.chars().collect()).collect()
}

#[test]
fn retention_keeps_one_snapshot_per_new_hour_and_day() {
    let plan = retention_plan(&vec![0, 3_600_000, 1_800_000]).unwrap();
    assert_eq!(plan, vec![(1, true), (2, true), (0, false)]);
    assert_eq!(retention_plan(&vec![]).unwrap(), vec![]);
    let hours: Vec<i64> = (0..30).map(|h| h * 3_600_000).collect();
    let plan = retention_plan(&hours).unwrap();
    assert_eq!(plan.iter().filter(|(_, keep)| *keep).count(), 24);
    assert!(plan[0].1);
    assert!(retention_plan(&vec![i64::MAX]).is_err());
}

#[test]
fn backup_inputs_are_checked() {
    assert!(validate_reason("Restore after disk failure").is_ok());
    assert!(validate_reason(" padded").is_err());
    assert!(validate_reason("").is_err());
    assert!(validate_uuid("67e55044-10b1-426f-9247-bb680e5fe0c8", "snapshot id").is_ok());
    assert_eq!(
        validate_uuid("67E55044-10B1-426F-9247-BB680E5FE0C8", "snapshot id").unwrap_err(),
        "snapshot id must use canonical UUID form."
    );
    assert_eq!(validate_uuid("nope", "snapshot id").unwrap_err(), "Invalid snapshot id.");
    assert!(check_deadline(2_700_000_000_000, "Backup").is_ok());
    assert_eq!(
        check_deadline(2_700_000_000_001, "Backup").unwrap_err(),
        "Backup exceeded the fixed 45-minute operation deadline."
    );
}

#[test]
fn backup_repository_stays_apart_from_live_data() {
    let db = components(&["/", "srv", "data", "db.sqlite3"]);
    let store = components(&["/", "srv", "data", "artifacts"]);
    assert!(reject_repository_overlap(&components(&["/", "srv", "backup"]), &db, &store).is_ok());
    assert!(reject_repository_overlap(&components(&["/", "srv", "data", "backups"]), &db, &store).is_err());
    assert!(reject_repository_overlap(&components(&["/", "srv"]), &db, &store).is_err());
    assert!(reject_repository_overlap(&components(&["/", "x"]), &components(&["/"]), &store).is_err());
}

fn task(lifecycle: &str) -> TaskState {
    TaskState {
        lifecycle: lifecycle.to_owned(),
        has_current_attempt: false,
        attempt_state: None,
        attempt_expires: None,
        owner_authorized: false,
        decisions_ready: true,
        objective_children_ready: true,
        workflow_status: None,
        workflow_phase: None,
        is_workflow_activity: false,
        has_blocked_reason: false,
        dependencies_ready: true,
    }
}

#[test]
fn task_status_follows_ownership_and_blockers() {
    assert_eq!(status(&task("open"), 10), "ready");
    assert_eq!(status(&task("done"), 10), "done");
    let mut owned = task("open");
    owned.has_current_attempt = true;
    owned.attempt_state = Some("active".to_owned());
    owned.attempt_expires = Some(20);
    owned.owner_authorized = true;
    assert_eq!(status(&owned, 10), "in_progress");
    assert_eq!(status(&owned, 20), "recovery_required");
    let mut review = task("open");
    review.workflow_phase = Some("review".to_owned());
    assert_eq!(status(&review, 10), "waiting_review");
    let mut blocked = task("open");
    blocked.dependencies_ready = false;
    assert_eq!(status(&blocked, 10), "blocked");
}

#[test]
fn claims_and_ownership_are_checked() {
    let request = ClaimRequest {
        mode: "work".to_owned(),
        task_id: Some("t".to_owned()),
        expected_task_revision: None,
        policy_revision: 1,
        instruction_version: "coordination-v8".to_owned(),
    };
    assert!(check_claim_request(&request).is_err());
    let actor = Actor {
        id: "p".to_owned(),
        name: "agent".to_owned(),
        kind: "agent".to_owned(),
        role: "agent".to_owned(),
        credential_id: Some("c".to_owned()),
        session_id: Some("s".to_owned()),
        credential_attributes: None,
    };
    let attempt = AttemptState {
        owner_id: "p".to_owned(),
        session_id: "s".to_owned(),
        credential_id: Some("c".to_owned()),
        generation: 2,
        state: "active".to_owned(),
        expires_at: 100,
    };
    let task = OwnedTask { current_attempt_id: Some("a".to_owned()), generation: 2, owner_authorized: true };
    assert!(check_ownership(&attempt, &actor, "a", 2, 50, &task).is_ok());
    assert_eq!(check_ownership(&attempt, &actor, "a", 2, 100, &task).unwrap_err().code, "lease_expired");
    assert_eq!(check_ownership(&attempt, &actor, "a", 1, 50, &task).unwrap_err().code, "lease_expired");
}

#[test]
fn observations_move_jobs_forward() {
    let job = JobRecord { producer_id: "p".to_owned(), state: "running".to_owned(), last_sequence: 3 };
    assert!(matches!(decide_observation(&job, "p", 4, "succeeded", false, true), Ok(ObservationOutcome::Record)));
    assert!(matches!(decide_observation(&job, "p", 3, "running", true, true), Ok(ObservationOutcome::Replay)));
    assert_eq!(
        decide_observation(&job, "p", 2, "running", false, true).err().unwrap().code,
        "observation_sequence_conflict"
    );
    assert_eq!(decide_observation(&job, "q", 4, "running", false, true).err().unwrap().code, "producer_mismatch");
    assert_eq!(decide_observation(&job, "p", 4, "registered", false, false).err().unwrap().code, "job_state_regression");
    let done = JobRecord { state: "failed".to_owned(), ..job };
    assert_eq!(decide_observation(&done, "p", 9, "running", false, true).err().unwrap().code, "job_terminal");
    assert_eq!(reporter_extension(500, 100, 1, 1_000), 1_000);
    assert_eq!(reporter_extension(50, 100, 1, 10_000), 1_100);
    assert_eq!(reporter_extension(50, 100, 60, 1_000), 1_000);
}

#[test]
fn maintenance_options_and_tally() {
    assert!(validate_options(MaintenanceOptions::default()).is_ok());
    assert_eq!(
        validate_options(MaintenanceOptions { batch_size: 0, max_batches: 1 }).unwrap_err(),
        "maintenance batch_size must be between 1 and 1000"
    );
    assert_eq!(receipt_cutoff(i64::MIN + 5), i64::MIN);
    assert_eq!(receipt_cutoff(2_592_000_001), 1);
    let mut tally = MaintenanceTally::new();
    let more = tally.record(1, BatchResult { receipts: u64::MAX, observations: 1, observation_rows_inspected: 2, receipts_remaining: true, observations_remaining: false }, 2);
    assert!(more);
    let more = tally.record(2, BatchResult { receipts: 5, observations: 0, observation_rows_inspected: 0, receipts_remaining: true, observations_remaining: false }, 2);
    assert!(!more);
    assert_eq!(tally.receipts, u64::MAX);
    assert_eq!(tally.batches, 2);
}

#[test]
fn reporters_renew_only_while_qualified_and_tasks_settle_first() {
    assert!(check_reporter_renewal(2, 2, 100, 50, true).is_ok());
    assert_eq!(check_reporter_renewal(2, 1, 100, 50, true).unwrap_err().code, "reporter_renewal_expired");
    assert!(check_reporter_renewal(2, 2, 50, 50, true).is_err());
    assert!(check_reporter_renewal(2, 2, 100, 50, false).is_err());
    assert!(check_quiescent(0, 0).is_ok());
    let e = check_quiescent(2, 0).unwrap_err();
    assert_eq!(e.code, "attempt_evidence_unresolved");
    assert_eq!(e.details[0].key, "held_reservations");
    assert_eq!(e.details[0].value, DetailValue::Number(2));
    assert_eq!(e.details[1].value, DetailValue::Number(0));
}

#[test]
fn reporters_present_one_scoped_token() {
    let proof = "ab".repeat(32);
    let token = format!("Bearer acr_0f8fad5b-d9cb-469f-a165-70867728950e.{proof}");
    let auth = reporter_credential("/api/v1/reporters/x/renew", false, false, false, &vec![Some(token.clone())]).unwrap();
    assert_eq!(auth.id(), "0f8fad5b-d9cb-469f-a165-70867728950e");
    assert_eq!(auth.proof_hash().len(), 64);
    assert!(reporter_credential("/api/v1/projects", false, false, false, &vec![Some(token.clone())]).is_err());
    assert!(reporter_credential("/api/v1/reporters/x", true, false, false, &vec![Some(token.clone())]).is_err());
    assert!(reporter_credential("/api/v1/reporters/x", false, false, false, &vec![Some(token.clone()), Some(token)]).is_err());
    let short = "Bearer acr_0f8fad5b-d9cb-469f-a165-70867728950e.abcd".to_owned();
    assert_eq!(reporter_credential("/api/v1/reporters/x", false, false, false, &vec![Some(short)]).err().unwrap().status, 401);
    assert!(reporter_credential("/api/v1/reporters/x", false, false, false, &vec![Some(format!("Bearer acr_nope.{}", "ab".repeat(32)))]).is_err());
}

#[test]
fn backup_files_stay_private() {
    assert!(private_mode_ok(0o600, false));
    assert!(private_mode_ok(0o700, true));
    assert!(!private_mode_ok(0o600, true));
    assert!(!private_mode_ok(0o640, false));
    assert!(!private_mode_ok(0o755, true));
}

fn eligible(id: &str, key: &str, size: i64, digest: &str) -> EligibleArtifactRow {
    EligibleArtifactRow {
        id: id.to_owned(),
        storage_key: Some(key.to_owned()),
        size_bytes: Some(size),
        sha256: Some(digest.to_owned()),
    }
}

fn recorded(id: &str, key: &str, size: u64, digest: &str) -> ArtifactRecord {
    ArtifactRecord {
        artifact_id: id.to_owned(),
        storage_key: key.to_owned(),
        size_bytes: size,
        sha256: digest.to_owned(),
        path: format!("blobs/{key}.blob"),
    }
}

#[test]
fn manifest_projection_matches_eligible_rows_one_for_one() {
    let rows = vec![eligible("a", "k1", 3, "d1"), eligible("b", "k2", 4, "d2")];
    let listed = vec![recorded("a", "k1", 3, "d1"), recorded("b", "k2", 4, "d2")];
    assert!(check_manifest_projection(&rows, &listed).is_ok());
    let short = vec![recorded("a", "k1", 3, "d1")];
    assert_eq!(
        check_manifest_projection(&rows, &short).err().unwrap(),
        "Snapshot manifest does not exactly cover its eligible artifact rows."
    );
    let changed = vec![recorded("a", "k1", 3, "d1"), recorded("b", "k2", 5, "d2")];
    assert_eq!(
        check_manifest_projection(&rows, &changed).err().unwrap(),
        "Snapshot manifest does not exactly match its eligible artifact rows."
    );
    let mut missing_key = rows;
    missing_key[0].storage_key = None;
    assert!(check_manifest_projection(&missing_key, &listed).is_err());
}
