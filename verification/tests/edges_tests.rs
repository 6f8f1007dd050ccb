use coordinator_server::mutation::{MutationLedger, ReceiptOutcome};
use coordinator_server::backup::absorb_snapshot_chunk;
use coordinator_server::auth::Auth;
use coordinator_server::mcp::{tool_output_length, MAX_REST_RESULT_BYTES, mcp_method_gate, mcp_request_gate, validate_public_request, McpGate, PublicRequest};
use coordinator_server::auth::{browser_change_check, Credential};
use coordinator_server::credential_attributes::{event_class, require_write_access, CredentialAttributes};
use coordinator_server::knowledge::{validate_knowledge, KnowledgeInput, KnowledgeProvenance, KnowledgeScope};
use coordinator_server::artifacts::authorize_change;
use coordinator_server::auth::{
    check_admin_password, check_login_input, require_own_session, validate_new_session, Actor,
    NewSession,
};
use coordinator_server::autonomy::require_evidence;
use coordinator_server::backup::{
    check_artifact_entry, check_file, check_free_space, check_manifest, ArtifactRecord, Completion,
    FileRecord, ManifestHeader,
};
use coordinator_server::catalog::check_registration;
use coordinator_server::discovery::mcp_instructions;
use coordinator_server::documentation::is_path;
use coordinator_server::history::{resume_from, HistoryCursor};
use coordinator_server::imports::{
    check_apply, export_cursor, historical_knowledge_kind, reconcile_task, service_state_is_newer,
    validate_source, ApplyRequest, ImportSource, LinkedTask, SavedPreview,
};
use coordinator_server::maintenance::{check_clock, ClockSample};
use coordinator_server::objectives::{
    check_child, check_membership_change, validate_objective, ChildFacts, ObjectiveChildInput,
    ObjectiveInput, ObjectiveState,
};
use sha2::{Digest, Sha256};

const A: &str = "0f8fad5b-d9cb-469f-a165-70867728950e";

fn s(v: &str) -> String {
    v.to_owned()
}

fn actor(kind: &str, session: Option<&str>) -> Actor {
    Actor {
        id: s("p1"),
        name: s("n"),
        kind: s(kind),
        role: s(kind),
        credential_id: None,
        session_id: session.map(s),
        credential_attributes: None,
    }
}

#[test]
fn sign_in_and_session_inputs_are_bounded() {
    assert!(check_login_input("admin", "pw").is_ok());
    assert_eq!(check_login_input(&"a".repeat(101), "pw").unwrap_err().status, 401);
    assert!(check_login_input("admin", &"p".repeat(1025)).is_err());
    assert!(check_admin_password("twelve chars").is_ok());
    assert_eq!(
        check_admin_password("short").unwrap_err().message,
        "The password must contain 12 to 1024 bytes."
    );
    let session = NewSession {
        session_id: s("session-1"),
        workstation_id: s("ws-1"),
        harness: s("harness"),
        capabilities: vec![s("git")],
    };
    assert!(validate_new_session(&session).is_ok());
    let bad = NewSession { harness: s(""), ..session };
    assert!(validate_new_session(&bad).is_err());
    assert!(require_own_session(&actor("agent", Some("s1")), "s1", "no").is_ok());
    assert_eq!(require_own_session(&actor("agent", Some("s1")), "s2", "no").unwrap_err().message, "no");
    assert!(require_own_session(&actor("agent", None), "s1", "no").is_err());
    assert!(authorize_change(&actor("human", None), "someone").is_ok());
    assert!(authorize_change(&actor("agent", None), "p1").is_ok());
    assert_eq!(authorize_change(&actor("agent", None), "p2").unwrap_err().status, 403);
    assert!(require_evidence(Some("logs attached")).is_ok());
    assert!(require_evidence(Some("  ")).is_err());
    assert!(require_evidence(None).is_err());
}

#[test]
fn tool_registration_and_paths() {
    assert!(check_registration("session-1", Some("session-1")).is_ok());
    assert!(check_registration("..", Some("..")).is_err());
    assert_eq!(
        check_registration("session-1", Some("other")).unwrap_err().message,
        "body.session_id must match the session ID persisted in client configuration."
    );
    assert!(is_path("/documentation"));
    assert!(is_path("/documentation/guide.html"));
    assert!(!is_path("/documentations"));
    assert!(mcp_instructions().starts_with("This configured MCP connection supports coordination"));
}

fn cursor() -> HistoryCursor {
    HistoryCursor { version: 1, project_id: s("p"), task_id: s("t"), kind: s("jobs"), cutoff: 10, last: 4 }
}

#[test]
fn history_cursors_resume_only_their_own_page() {
    assert_eq!(resume_from(&cursor(), "p", "t", "jobs").unwrap(), (10, 4));
    assert_eq!(resume_from(&cursor(), "p", "t", "events").unwrap_err().code, "history_cursor_mismatch");
    let beyond = HistoryCursor { last: 11, ..cursor() };
    assert!(resume_from(&beyond, "p", "t", "jobs").is_err());
    assert_eq!(check_clock(&ClockSample { now: 1, incident_detected: false, incident_active: false }), Ok(()));
    assert!(check_clock(&ClockSample { now: 1, incident_detected: true, incident_active: false })
        .unwrap_err()
        .contains("rollback"));
    assert!(check_clock(&ClockSample { now: 1, incident_detected: false, incident_active: true }).is_err());
}

fn hex_sha(bytes: &[u8]) -> String {
    Sha256::digest(bytes).iter().map(|b| format!("{b:02x}")).collect()
}

#[test]
fn snapshots_are_checked_before_their_files() {
    assert!(check_free_space(u64::MAX, 1).is_ok());
    assert!(check_free_space(100, 1).is_err());
    let manifest_bytes = b"{\"manifest\":true}";
    let completion = Completion { format_version: 1, snapshot_id: s(A), manifest_sha256: hex_sha(manifest_bytes) };
    let header = ManifestHeader {
        format_version: 1,
        snapshot_id: s(A),
        artifact_count: 0,
        database: FileRecord { path: s("database.sqlite3"), size_bytes: 10, sha256: "a".repeat(64) },
    };
    assert!(check_manifest(&completion, manifest_bytes, &header).is_ok());
    assert!(check_manifest(&completion, b"tampered", &header).is_err());
    let other = ManifestHeader { snapshot_id: s("7c9e6679-7425-40de-944b-e07fc1f90ae7"), ..header };
    assert!(check_manifest(&completion, manifest_bytes, &other).is_err());
    assert!(check_file(10, "d", 10, "d", "bad").is_ok());
    assert_eq!(check_file(9, "d", 10, "d", "bad").unwrap_err(), "bad");
    let entry = || ArtifactRecord {
        artifact_id: s(A),
        storage_key: s(A),
        size_bytes: 3,
        sha256: "b".repeat(64),
        path: format!("blobs/{A}.blob"),
    };
    let twice = vec![entry(), entry()];
    assert!(check_artifact_entry(&twice, 0).is_ok());
    assert_eq!(
        check_artifact_entry(&twice, 1).unwrap_err(),
        "Snapshot contains duplicate artifact identities or storage keys."
    );
}

#[test]
fn objective_definitions_and_children() {
    let input = ObjectiveInput {
        title: s("Ship v2"),
        description: s(""),
        acceptance_criteria: vec![s("released")],
        priority: 1,
        children: vec![ObjectiveChildInput { task_id: s("c1"), required: true }],
    };
    assert!(validate_objective(&input).is_ok());
    let facts = ChildFacts { exists: true, workflow_activity: false, other_parent: false, creates_cycle: false };
    assert!(check_child("o", "c1", &facts).is_ok());
    assert_eq!(check_child("o", "o", &facts).unwrap_err().message, "An objective cannot contain itself.");
    let taken = ChildFacts { other_parent: true, ..facts };
    assert_eq!(check_child("o", "c1", &taken).unwrap_err().code, "objective_parent_conflict");
    let state = ObjectiveState { revision: 2, lifecycle: s("open"), attempted: false, submitted: false };
    assert!(check_membership_change(&state, 2).is_ok());
    assert_eq!(check_membership_change(&state, 1).unwrap_err().code, "revision_conflict");
    let started = ObjectiveState { attempted: true, ..state };
    assert_eq!(check_membership_change(&started, 2).unwrap_err().code, "objective_membership_frozen");
}

fn linked(lifecycle: &str, revision: i64) -> LinkedTask {
    LinkedTask {
        revision,
        lifecycle: s(lifecycle),
        title: s("Import me"),
        has_current_attempt: false,
        has_attempt_history: false,
        has_workflow: false,
    }
}

#[test]
fn imports_apply_only_fresh_previews_and_keep_service_edits() {
    let source = ImportSource {
        context: s("ctx"),
        git_revision: "a".repeat(40),
        observed_at: s("2024-01-01T00:00:00Z"),
        branch: s("main"),
        environment: s(""),
    };
    assert!(validate_source(&source).is_ok());
    let late = ImportSource { observed_at: s("yesterday"), ..source };
    assert!(validate_source(&late).is_err());
    let saved = SavedPreview { digest: s("d"), project_event_revision: 5, applied: false, has_blocking_conflict: false };
    let request = ApplyRequest { preview_digest: s("d"), expected_project_event_revision: 5 };
    assert!(check_apply(&saved, &request, 5).is_ok());
    assert_eq!(check_apply(&saved, &request, 6).unwrap_err().code, "stale_import_preview");
    let other = ApplyRequest { preview_digest: s("e"), expected_project_event_revision: 5 };
    assert_eq!(check_apply(&saved, &other, 5).unwrap_err().code, "preview_mismatch");
    let applied = SavedPreview { applied: true, ..saved };
    assert_eq!(check_apply(&applied, &request, 5).unwrap_err().code, "import_already_applied");
    assert!(!service_state_is_newer(3, &linked("planned", 3)));
    assert!(service_state_is_newer(3, &linked("planned", 4)));
    assert!(service_state_is_newer(3, &linked("open", 3)));
    let kept = reconcile_task(false, true, Some(3), "Import me", &linked("planned", 3));
    assert!(kept.closed && !kept.preserved);
    assert_eq!(kept.rewrite.as_deref(), Some("done"));
    let edited = reconcile_task(false, false, Some(3), "Import me", &linked("planned", 4));
    assert!(edited.preserved && edited.rewrite.is_none());
    assert_eq!(historical_knowledge_kind("rejected"), (s("rejected_approach"), s("validated")));
    assert_eq!(historical_knowledge_kind("superseded"), (s("checkpoint"), s("superseded")));
    assert_eq!(historical_knowledge_kind("closed"), (s("fact"), s("validated")));
    assert_eq!(export_cursor("12~task:a", 12).unwrap(), "task:a");
    assert_eq!(export_cursor("11~task:a", 12).unwrap_err().code, "export_snapshot_changed");
    assert_eq!(export_cursor("nothing", 12).unwrap_err().message, "Invalid export cursor.");
}

#[test]
fn public_requests_name_the_configured_service() {
    let request = |hosts: Vec<Option<String>>, origins: Vec<Option<String>>| PublicRequest {
        hosts,
        uri_authority: None,
        origins,
        names: vec![(s("host"), 1)],
    };
    let origin = "https://example.com";
    assert!(validate_public_request(&request(vec![Some(s("example.com"))], vec![]), origin).is_ok());
    assert!(validate_public_request(&request(vec![Some(s("example.com"))], vec![Some(s("https://example.com"))]), origin).is_ok());
    assert!(validate_public_request(&request(vec![Some(s("evil.com"))], vec![]), origin).is_err());
    assert_eq!(
        validate_public_request(&request(vec![], vec![]), origin).unwrap_err().message,
        "Supply exactly one valid Host header for the configured service."
    );
    assert!(validate_public_request(&request(vec![Some(s("example.com"))], vec![Some(s("https://evil.com"))]), origin).is_err());
    let repeated = PublicRequest { names: vec![(s("mcp-protocol-version"), 2)], ..request(vec![Some(s("example.com"))], vec![]) };
    assert_eq!(
        validate_public_request(&repeated, origin).unwrap_err().message,
        "Each MCP protocol metadata header may appear only once."
    );
    assert_eq!(validate_public_request(&request(vec![Some(s("example.com"))], vec![]), "not a url").unwrap_err().status, 500);
}

#[test]
fn browser_changes_need_origin_and_csrf() {
    let browser = Credential::Browser { token_hash: s("h"), csrf: s("token") };
    let origin = vec![Some(s("https://example.com"))];
    let csrf = vec![Some(s("token"))];
    assert!(browser_change_check("GET", &browser, &vec![], &vec![], "https://example.com").is_ok());
    assert!(browser_change_check("POST", &browser, &origin, &csrf, "https://example.com").is_ok());
    assert_eq!(
        browser_change_check("POST", &browser, &vec![Some(s("https://evil.com"))], &csrf, "https://example.com").unwrap_err().status,
        403
    );
    assert!(browser_change_check("POST", &browser, &origin, &vec![Some(s("other"))], "https://example.com").is_err());
    assert_eq!(browser_change_check("POST", &browser, &origin, &vec![], "https://example.com").unwrap_err().status, 403);
    let two_origins = vec![Some(s("https://example.com")), Some(s("https://example.com"))];
    assert_eq!(browser_change_check("POST", &browser, &two_origins, &csrf, "https://example.com").unwrap_err().status, 401);
    let twice = vec![Some(s("token")), Some(s("token"))];
    assert_eq!(browser_change_check("POST", &browser, &origin, &twice, "https://example.com").unwrap_err().status, 401);
    let bearer = Credential::Bearer { token_hash: s("h"), session: None, allow_closed: false };
    assert!(browser_change_check("POST", &bearer, &vec![], &vec![], "https://example.com").is_ok());
}

#[test]
fn read_only_credentials_and_event_classes() {
    let mut reader = actor("agent", Some("s1"));
    reader.credential_attributes = Some(CredentialAttributes::from_columns("interactive", "read"));
    assert!(require_write_access(&reader, "POST /api/v1/sessions").is_ok());
    assert_eq!(require_write_access(&reader, "POST /api/v1/projects/p/tasks").unwrap_err().status, 403);
    let writer = actor("agent", Some("s1"));
    assert!(require_write_access(&writer, "POST /api/v1/projects/p/tasks").is_ok());
    assert_eq!(event_class(&reader), Some("interactive"));
    assert_eq!(event_class(&writer), None);
}

#[test]
fn knowledge_records_are_checked_in_order() {
    let input = KnowledgeInput {
        kind: s("lesson"),
        status: s("observed"),
        title: s("Retry flaky fetches"),
        body: s("Once, with backoff."),
        applicability: s(""),
        scope: KnowledgeScope { task_ids: vec![], components: vec![], environments: vec![], versions: vec![] },
        tags: vec![s("network")],
        provenance: KnowledgeProvenance { summary: s("CI logs"), source_uri: None, source_task_id: None, source_submission_id: None },
        collection: s("project"),
        share_across_projects: false,
    };
    assert!(validate_knowledge(&input).is_ok());
    let shared = KnowledgeInput { collection: s("shared"), ..input };
    assert!(validate_knowledge(&shared).is_err());
    let odd = KnowledgeInput { kind: s("rumor"), share_across_projects: false, collection: s("project"), ..shared };
    assert_eq!(validate_knowledge(&odd).unwrap_err().message, "Knowledge kind or status is not supported.");
}

#[test]
fn mcp_endpoint_refuses_queries_cookies_and_other_methods() {
    let origin = "https://example.com";
    let request = PublicRequest {
        hosts: vec![Some(s("example.com"))],
        uri_authority: None,
        origins: vec![],
        names: vec![(s("host"), 1)],
    };
    assert!(matches!(mcp_request_gate(&request, origin, false, false), McpGate::Authenticate));
    match mcp_request_gate(&request, origin, true, true) {
        McpGate::Refuse(e) => assert_eq!(e.message, "The MCP endpoint does not accept query parameters."),
        other => panic!("unexpected {other:?}"),
    }
    match mcp_request_gate(&request, origin, false, true) {
        McpGate::Challenge(e) => assert_eq!(e.status, 401),
        other => panic!("unexpected {other:?}"),
    }
    let foreign = PublicRequest { hosts: vec![Some(s("evil.example"))], ..request };
    match mcp_request_gate(&foreign, origin, false, false) {
        McpGate::Refuse(e) => assert_eq!(e.code, "origin_not_permitted"),
        other => panic!("unexpected {other:?}"),
    }
    assert!(mcp_method_gate(true).is_ok());
    assert_eq!(mcp_method_gate(false).err().unwrap().status, 405);
}

#[test]
fn tool_output_is_bounded_to_one_mebibyte() {
    assert_eq!(tool_output_length(10, 20).unwrap(), 30);
    assert_eq!(tool_output_length(MAX_REST_RESULT_BYTES - 1, 1).unwrap(), MAX_REST_RESULT_BYTES);
    assert!(tool_output_length(MAX_REST_RESULT_BYTES, 1).err().unwrap().contains("1 MiB"));
    assert!(tool_output_length(usize::MAX, 1).err().unwrap().contains("MCP output limit"));
}

#[test]
fn only_browser_sessions_carry_a_csrf_token() {
    let browser = Auth::new(actor("human", None), Credential::Browser { token_hash: s("h"), csrf: s("token") });
    assert!(browser.is_browser());
    assert_eq!(browser.browser_csrf(), Some(s("token")));
    let agent = Auth::new(
        actor("agent", Some("s1")),
        Credential::Bearer { token_hash: s("h"), session: None, allow_closed: false },
    );
    assert!(!agent.is_browser());
    assert_eq!(agent.browser_csrf(), None);
}

#[test]
fn snapshot_files_are_hashed_within_their_limit() {
    let mut h = coordinator_server::crypto::ContentHasher::new();
    assert!(absorb_snapshot_chunk(&mut h, b"ab", 3).is_ok());
    assert!(absorb_snapshot_chunk(&mut h, b"c", 3).is_ok());
    assert_eq!(absorb_snapshot_chunk(&mut h, b"d", 3).unwrap_err(), "Snapshot file exceeds its fixed size limit.");
    let (size, digest) = h.digest();
    assert_eq!(size, 3);
    assert!(check_file(size, &digest, 3, "ba7816bf8f01cfea414140de5dae2223b00361a396177a9cb410ff61f20015ad", "bad").is_ok());
}

#[test]
fn finished_mutations_store_one_receipt_and_one_event() {
    let me = actor("agent", Some("s1"));
    let mut ledger = MutationLedger { receipts: vec![], events: vec![] };
    assert!(matches!(ledger.begin(&me, "POST /x", "k1", "f1", 10), Ok(ReceiptOutcome::Fresh)));
    let result = ledger
        .finish(&me, "POST /x", "k1", "f1", "{\"ok\":true}", Some("p"), "task.created", "t1", 10)
        .unwrap();
    assert_eq!(result, "{\"ok\":true}");
    assert_eq!(ledger.receipts.len(), 1);
    assert_eq!(ledger.events.len(), 1);
    assert_eq!(ledger.events[0].kind, "task.created");
    assert_eq!(ledger.events[0].data_json, "{}");
    match ledger.begin(&me, "POST /x", "k1", "f1", 20) {
        Ok(ReceiptOutcome::Replay(v)) => assert_eq!(v, "{\"ok\":true}"),
        _ => panic!("expected a replay"),
    }
    assert_eq!(ledger.begin(&me, "POST /x", "k1", "f2", 20).err().unwrap().code, "idempotency_conflict");
    assert_eq!(
        ledger.begin(&me, "POST /x", "k1", "f1", 10 + 2_592_000_001).err().unwrap().code,
        "idempotency_receipt_expired"
    );
    assert!(matches!(ledger.begin(&me, "POST /y", "k1", "f2", 20), Ok(ReceiptOutcome::Fresh)));
    assert_eq!(ledger.finish(&me, "POST /x", "k1", "f1", "{}", None, "x", "r", 30).unwrap_err().status, 500);
    assert_eq!(ledger.receipts.len(), 1);
    assert_eq!(ledger.events.len(), 1);
}
