use coordinator_server::history::{redact_sensitive, JsonField, JsonTree};
use coordinator_server::history::history_page;
use coordinator_server::knowledge::time_cursor;
use coordinator_server::decisions::decision_page;
use coordinator_server::knowledge::{check_lesson_count, lesson_knowledge, SubmissionLesson};
use coordinator_server::knowledge::{check_feedback_revision, check_knowledge_revision, check_supersession, validate_feedback, validate_knowledge_edit, KnowledgeEditInput};
use coordinator_server::history::cutoff_table;
use coordinator_server::objectives::{detail_query_limit, validate_children_update};
use coordinator_server::knowledge::{
    fts_query, validate_decision, validate_tags, DecisionInput, DecisionTaskInput, KnowledgePage,
};
use coordinator_server::objectives::{validate_child_input, ObjectiveChildInput};
use coordinator_server::history::{check_history_query, cursor_bytes, is_sensitive_key, snapshot, valid_kind};
use sha2::{Digest, Sha256};

fn strings(items: &[&str]) -> Vec<String> {
    items.iter().map(|s| (*s).to_owned()).collect()
}

#[test]
fn search_queries_quote_words() {
    assert_eq!(fts_query("hello, world! \"quoted\"").unwrap(), "\"hello\" AND \"world\" AND \"quoted\"");
    assert_eq!(fts_query("a\"b").unwrap(), "\"a\"\"b\"");
    assert_eq!(fts_query("!!!").err().unwrap().message, "q must contain searchable words.");
    let many: Vec<String> = (0..40).map(|i| format!("w{i}")).collect();
    let query = fts_query(&many.join(" ")).unwrap();
    assert_eq!(query.matches(" AND ").count(), 31);
}

#[test]
fn tags_are_unique_ignoring_case() {
    assert!(validate_tags(&strings(&["rust", "verus"])).is_ok());
    assert_eq!(
        validate_tags(&strings(&["Rust", "rust"])).err().unwrap().message,
        "Knowledge tags must be unique ignoring case."
    );
    let many: Vec<String> = (0..51).map(|i| format!("t{i}")).collect();
    assert_eq!(validate_tags(&many).err().unwrap().message, "Provide no more than 50 tags.");
}

#[test]
fn knowledge_cursors_and_limits() {
    let page = KnowledgePage {
        cursor: Some("123:abc".to_owned()),
        limit: None,
        kind: None,
        status: None,
        tag: None,
        include_shared: false,
    };
    assert_eq!(page.limit().unwrap(), 50);
    assert_eq!(page.cursor().unwrap(), (Some(123), Some("abc".to_owned())));
    let bad = KnowledgePage { cursor: Some("x:abc".to_owned()), limit: Some(0), ..page };
    assert_eq!(bad.cursor().err().unwrap().message, "Invalid knowledge cursor.");
    assert!(bad.limit().is_err());
}

#[test]
fn decisions_need_distinct_options_and_tasks() {
    let mut input = DecisionInput {
        question: "Ship?".to_owned(),
        rationale: "Because".to_owned(),
        environment: String::new(),
        conditions: String::new(),
        required_actor: "human".to_owned(),
        options: strings(&["yes", "no"]),
        affected_tasks: vec![DecisionTaskInput { task_id: "t1".to_owned(), task_revision: 1 }],
        policy_revision: 1,
    };
    assert!(validate_decision(&input).is_ok());
    input.options = strings(&["yes", "yes"]);
    assert_eq!(validate_decision(&input).err().unwrap().message, "Decision options must be unique.");
    input.options = strings(&["yes", "no"]);
    input.affected_tasks.push(DecisionTaskInput { task_id: "t1".to_owned(), task_revision: 2 });
    assert_eq!(
        validate_decision(&input).err().unwrap().message,
        "Affected task IDs must be unique and revisions positive."
    );
}

#[test]
fn objective_children_are_distinct() {
    let child = |id: &str| ObjectiveChildInput { task_id: id.to_owned(), required: true };
    assert!(validate_child_input(&vec![child("a"), child("b")]).is_ok());
    assert_eq!(
        validate_child_input(&vec![child("a"), child("a")]).err().unwrap().message,
        "Objective child task IDs must be distinct."
    );
}

#[test]
fn history_queries_and_cursors() {
    assert!(valid_kind("events"));
    assert!(!valid_kind("secrets"));
    assert_eq!(check_history_query("jobs", None).unwrap(), 50);
    assert!(check_history_query("jobs", Some(201)).is_err());
    assert_eq!(cursor_bytes("7b7D").unwrap(), vec![0x7b, 0x7d]);
    assert!(cursor_bytes("7b7").is_err());
    assert!(cursor_bytes("").is_err());
    assert!(is_sensitive_key("X-Session_ID"));
    assert!(is_sensitive_key("api_TOKEN"));
    assert!(!is_sensitive_key("summary"));
    let mut hash = Sha256::new();
    for part in ["p", "t", "jobs", "-5"] {
        hash.update(part.as_bytes());
        hash.update([0]);
    }
    assert_eq!(snapshot("p", "t", "jobs", -5), hex::encode(hash.finalize()));
}

fn empty_scope() -> coordinator_server::knowledge::KnowledgeScope {
    coordinator_server::knowledge::KnowledgeScope {
        task_ids: vec![],
        components: vec![],
        environments: vec![],
        versions: vec![],
    }
}

fn provenance() -> coordinator_server::knowledge::KnowledgeProvenance {
    coordinator_server::knowledge::KnowledgeProvenance {
        summary: "Seen in CI".to_owned(),
        source_uri: None,
        source_task_id: None,
        source_submission_id: None,
    }
}

#[test]
fn knowledge_corrections_and_feedback() {
    let edit = KnowledgeEditInput {
        title: "Flaky network test".to_owned(),
        body: "Retry once.".to_owned(),
        status: "observed".to_owned(),
        scope: empty_scope(),
        tags: vec![],
        applicability: String::new(),
        provenance: provenance(),
        superseded_by_id: None,
        expected_revision: 1,
    };
    assert!(validate_knowledge_edit(&edit).is_ok());
    let stale = KnowledgeEditInput { expected_revision: 0, ..edit };
    assert_eq!(validate_knowledge_edit(&stale).unwrap_err().message, "expected_revision must be positive.");
    assert_eq!(check_knowledge_revision(2, 1).unwrap_err().code, "revision_conflict");
    assert!(check_supersession("superseded", true, true).is_ok());
    assert_eq!(
        check_supersession("observed", true, true).unwrap_err().message,
        "superseded_by_id requires status=superseded."
    );
    assert_eq!(
        check_supersession("superseded", true, false).unwrap_err().message,
        "The superseding knowledge record does not exist."
    );
    assert_eq!(
        check_supersession("superseded", false, false).unwrap_err().message,
        "A superseded revision requires superseded_by_id."
    );
    assert!(validate_feedback("useful", 1).is_ok());
    assert!(validate_feedback(&"x".repeat(2049), 1).is_err());
    assert!(check_feedback_revision(1, 1).is_ok());
    assert_eq!(
        check_feedback_revision(1, 2).unwrap_err().message,
        "Read the current knowledge revision before recording feedback."
    );
}

#[test]
fn history_snapshots_read_their_tables() {
    assert_eq!(cutoff_table("resources").unwrap(), "reservations");
    assert_eq!(cutoff_table("reviews").unwrap(), "workflow_activities");
    assert_eq!(cutoff_table("integrations").unwrap(), "workflow_activities");
    assert_eq!(cutoff_table("jobs").unwrap(), "jobs");
    assert!(cutoff_table("secrets").is_none());
}

#[test]
fn objective_updates_and_history_pages() {
    assert!(validate_children_update(&vec![], 1).is_ok());
    let children = vec![ObjectiveChildInput { task_id: "c".to_owned(), required: true }];
    assert!(validate_children_update(&children, 1).is_ok());
    assert_eq!(
        validate_children_update(&children, 0).unwrap_err().message,
        "expected_revision must be positive."
    );
    assert_eq!(detail_query_limit(None, None).unwrap(), 50);
    assert!(detail_query_limit(Some(0), None).is_err());
    assert!(detail_query_limit(None, Some(201)).is_err());
    assert_eq!(detail_query_limit(Some(3), Some(7)).unwrap(), 7);
}

#[test]
fn submitted_lessons_carry_their_source() {
    assert!(check_lesson_count(50).is_ok());
    assert!(check_lesson_count(51).is_err());
    let lesson = SubmissionLesson {
        kind: "lesson".to_owned(),
        title: "Cache warms slowly".to_owned(),
        body: "Prime it first.".to_owned(),
        status: "observed".to_owned(),
        scope: empty_scope(),
        tags: vec![],
        applicability: String::new(),
        provenance_summary: "  ".to_owned(),
        source_uri: None,
        collection: "project".to_owned(),
        share_across_projects: false,
    };
    let input = lesson_knowledge(lesson, "t1", "s1");
    assert_eq!(input.provenance.summary, "Created with the immutable task submission.");
    assert_eq!(input.provenance.source_task_id.as_deref(), Some("t1"));
    assert_eq!(input.provenance.source_submission_id.as_deref(), Some("s1"));
    assert_eq!(input.title, "Cache warms slowly");
}

#[test]
fn list_cursors_read_back_as_their_rows() {
    let cursor = time_cursor(-1_700_000_000_000, "a:b");
    assert_eq!(cursor, "-1700000000000:a:b");
    let page = KnowledgePage {
        cursor: Some(cursor.clone()),
        limit: None,
        kind: None,
        status: None,
        tag: None,
        include_shared: false,
    };
    assert_eq!(page.cursor().unwrap(), (Some(-1_700_000_000_000), Some("a:b".to_owned())));
    let later = time_cursor(1_700_000_000_123, "decision-1");
    assert_eq!(
        decision_page(Some(10), Some("pending"), Some(&later)).unwrap(),
        (10, Some((1_700_000_000_123, "decision-1".to_owned())))
    );
}

#[test]
fn history_pages_walk_the_window_without_gaps_or_repeats() {
    let ids = vec![2, 3, 5, 8, 13, 21];
    let (first, more) = history_page(&ids, 2, 13, 2);
    assert_eq!(first, vec![3, 5]);
    assert!(more);
    let (second, more) = history_page(&ids, *first.last().unwrap(), 13, 2);
    assert_eq!(second, vec![8, 13]);
    assert!(!more);
    let (third, more) = history_page(&ids, 13, 13, 2);
    assert!(third.is_empty());
    assert!(!more);
    assert_eq!(history_page(&ids, 0, 21, 10), (ids.clone(), false));
}

fn field(key: &str, value: JsonTree) -> JsonField {
    JsonField { key: key.to_owned(), value }
}

fn keys(t: &JsonTree) -> Vec<String> {
    match t {
        JsonTree::Object(f) => f.iter().map(|x| x.key.clone()).collect(),
        _ => vec![],
    }
}

#[test]
fn history_data_loses_sensitive_members_at_any_depth() {
    let data = JsonTree::Object(vec![
        field("Authorization", JsonTree::Text("Bearer x".to_owned())),
        field("title", JsonTree::Text("t".to_owned())),
        field(
            "items",
            JsonTree::Array(vec![JsonTree::Object(vec![
                field("session_id", JsonTree::Text("s".to_owned())),
                field("count", JsonTree::Number("3".to_owned())),
                field("refresh_token", JsonTree::Null),
            ])]),
        ),
        field("ok", JsonTree::Bool(true)),
    ]);
    let r = redact_sensitive(&data);
    assert_eq!(keys(&r), vec!["title", "items", "ok"]);
    let again = redact_sensitive(&r);
    assert_eq!(keys(&again), vec!["title", "items", "ok"]);
    assert_eq!(format!("{again:?}"), format!("{r:?}"));
    match &r {
        JsonTree::Object(f) => match &f[1].value {
            JsonTree::Array(items) => {
                assert_eq!(items.len(), 1);
                assert_eq!(keys(&items[0]), vec!["count"]);
            }
            _ => panic!("expected an array"),
        },
        _ => panic!("expected an object"),
    }
}
