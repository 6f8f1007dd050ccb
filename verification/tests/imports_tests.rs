use coordinator_server::imports::{check_records_unchanged, ImportItem};
use coordinator_server::imports::{export_cursor, export_markdown, export_next_cursor, ExportRecord};
use coordinator_server::imports::{
    checklist, clean_title, explicit_anchor, normalize_identity_text, normalize_path,
    parse_chunks, resolve_link, stable_identity, HistoricalMapping, ImportSource, MarkdownChunk,
};
use sha2::{Digest, Sha256};

fn source() -> ImportSource {
    ImportSource {
        context: "ctx".to_owned(),
        git_revision: "a".repeat(40),
        observed_at: "2024-01-01T00:00:00Z".to_owned(),
        branch: "main".to_owned(),
        environment: String::new(),
    }
}

fn chunk(path: &str, markdown: &str) -> MarkdownChunk {
    MarkdownChunk { path: path.to_owned(), markdown: markdown.to_owned() }
}

fn expected_identity(parts: [&str; 4]) -> String {
    let mut hash = Sha256::new();
    for part in parts {
        hash.update(part.as_bytes());
        hash.update([0]);
    }
    hex::encode(hash.finalize())
}

#[test]
fn checklist_items_become_planned_and_closed_tasks() {
    let markdown = "# Plan\n- [ ] First task\n- [x] Done task <!-- coordinator-id: done-1 -->\nSee [other](../other.md) and [site](https://x.y)\n";
    let parsed = parse_chunks(&source(), &vec![chunk("docs/plan.md", markdown)], &vec![]).unwrap();
    assert_eq!(parsed.items.len(), 2);
    let first = &parsed.items[0];
    assert_eq!(first.title, "First task");
    assert_eq!(first.section_identity, "Plan");
    assert_eq!(first.disposition, "planned");
    assert_eq!(first.source_line, 2);
    assert_eq!(first.stable_identity, expected_identity(["ctx", "docs/plan.md", "Plan", "first task"]));
    let second = &parsed.items[1];
    assert_eq!(second.title, "Done task");
    assert_eq!(second.disposition, "closed");
    assert_eq!(second.source_line, 3);
    assert_eq!(second.stable_identity, expected_identity(["ctx", "docs/plan.md", "Plan", "done-1"]));
    assert_eq!(
        second.evidence,
        "Explicit checked Markdown checklist item at the recorded source revision."
    );
    assert_eq!(parsed.unresolved_links.len(), 1);
    assert_eq!(parsed.unresolved_links[0].target, "../other.md");
    assert_eq!(parsed.unresolved_links[0].source_line, 4);
    assert!(parsed.conflicts.is_empty());
}

#[test]
fn repeated_identities_and_generated_exports_are_conflicts() {
    let markdown = "<!-- agent-coordinator-generated-export project=p -->\n## A\n- [ ] Same\n- [ ] same\n- [ ] \n";
    let parsed = parse_chunks(&source(), &vec![chunk("x.md", markdown)], &vec![]).unwrap();
    assert_eq!(parsed.items.len(), 1);
    let codes: Vec<&str> = parsed.conflicts.iter().map(|c| c.code.as_str()).collect();
    assert_eq!(codes, vec!["generated_projection", "ambiguous_source_identity", "invalid_checklist_item"]);
    assert_eq!(
        parsed.conflicts[1].message,
        "This item repeats source identity already used at x.md in A; add distinct coordinator-id markers."
    );
}

#[test]
fn chunk_and_mapping_errors_come_first() {
    let err = parse_chunks(&source(), &vec![], &vec![]).err().unwrap();
    assert_eq!(err.message, "Provide 1–32 Markdown source chunks.");
    let err = parse_chunks(&source(), &vec![chunk("a.md", ""), chunk("./a.md", "")], &vec![]).err().unwrap();
    assert_eq!(err.message, "Source chunk paths must be unique.");
    let mapping = HistoricalMapping {
        path: "b.md".to_owned(),
        section_identity: "S".to_owned(),
        title: "T".to_owned(),
        evidence: "E".to_owned(),
        disposition: "closed".to_owned(),
    };
    let err = parse_chunks(&source(), &vec![chunk("a.md", "")], &vec![mapping]).err().unwrap();
    assert_eq!(err.message, "Every historical mapping path must name a supplied source chunk.");
}

#[test]
fn mappings_become_historical_items() {
    let mapping = HistoricalMapping {
        path: "a.md".to_owned(),
        section_identity: "Old".to_owned(),
        title: "Legacy Work".to_owned(),
        evidence: "Shipped in v1".to_owned(),
        disposition: "superseded".to_owned(),
    };
    let parsed = parse_chunks(&source(), &vec![chunk("a.md", "")], &vec![mapping]).unwrap();
    assert_eq!(parsed.items.len(), 1);
    assert_eq!(parsed.items[0].record_kind, "historical");
    assert_eq!(parsed.items[0].source_line, 0);
    assert_eq!(parsed.items[0].stable_identity, expected_identity(["ctx", "a.md", "Old", "legacy work"]));
}

#[test]
fn more_than_two_hundred_items_are_refused() {
    let mut markdown = String::new();
    for i in 0..201 {
        markdown.push_str(&format!("- [ ] task {i}\n"));
    }
    let err = parse_chunks(&source(), &vec![chunk("a.md", &markdown)], &vec![]).err().unwrap();
    assert_eq!(err.message, "A preview may contain at most 200 items.");
}

#[test]
fn paths_are_normalized_metadata() {
    assert_eq!(normalize_path("a\\b/./c//").unwrap(), "a/b/c");
    assert_eq!(
        normalize_path("../x").err().unwrap().message,
        "Source paths must be relative metadata paths without parent traversal."
    );
    assert_eq!(normalize_path("C:/x").err().unwrap().message, "Source path metadata is invalid.");
    assert_eq!(normalize_path("./").err().unwrap().message, "Source path metadata is invalid.");
}

#[test]
fn links_resolve_against_the_source_directory() {
    assert_eq!(resolve_link("docs/a.md", "/x\\y.md"), "x/y.md");
    assert_eq!(resolve_link("a.md", "b.md"), "b.md");
    assert_eq!(resolve_link("docs/a.md", "../b.md"), "b.md");
    assert_eq!(resolve_link("docs/a.md", "./c/d.md"), "docs/c/d.md");
}

#[test]
fn titles_anchors_and_checklists() {
    assert_eq!(normalize_identity_text("Hello,  World! Ünïcode"), "hello world Ünïcode");
    assert_eq!(clean_title("**Title**  <!-- coordinator-id: x -->"), "Title");
    assert_eq!(checklist("  * [X] item"), Some((true, "item".to_owned())));
    assert_eq!(checklist("- [y] item"), None);
    assert_eq!(explicit_anchor("x <!-- coordinator-id:  abc-1 --> y"), Some("abc-1".to_owned()));
    assert_eq!(explicit_anchor("<!-- coordinator-id: a b -->"), None);
    assert_eq!(stable_identity("c", "p", "s", "a"), expected_identity(["c", "p", "s", "a"]));
}

#[test]
fn exports_render_markdown_that_reimports_as_a_projection() {
    let records = vec![ExportRecord {
        kind: "task".to_owned(),
        title: "Ship it".to_owned(),
        status: "open".to_owned(),
        body: "Details".to_owned(),
    }];
    let md = export_markdown("p1", 12, "2024-01-01T00:00:00.000Z", &records);
    assert_eq!(
        md,
        "<!-- agent-coordinator-generated-export project=p1 event_revision=12 generated_at=2024-01-01T00:00:00.000Z -->\n\n# Agent Coordinator export\n\n## task: Ship it\n\nStatus: `open`\n\nDetails\n\n"
    );
    let parsed = parse_chunks(&source(), &vec![chunk("export.md", &md)], &vec![]).unwrap();
    assert_eq!(parsed.conflicts[0].code, "generated_projection");
}

#[test]
fn export_cursors_read_back_on_the_same_snapshot() {
    let cursor = export_next_cursor(42, "knowledge:b~c");
    assert_eq!(cursor, "42~knowledge:b~c");
    assert_eq!(export_cursor(&cursor, 42).unwrap(), "knowledge:b~c");
    assert_eq!(export_cursor(&cursor, 43).unwrap_err().code, "export_snapshot_changed");
    let negative = export_next_cursor(-7, "task:a");
    assert_eq!(negative, "-7~task:a");
    assert_eq!(export_cursor(&negative, -7).unwrap(), "task:a");
}

fn previewed(identity: &str, prior: Option<i64>) -> ImportItem {
    ImportItem {
        stable_identity: identity.to_owned(),
        source_path: "PLAN.md".to_owned(),
        section_identity: "s".to_owned(),
        title: "t".to_owned(),
        record_kind: "task".to_owned(),
        disposition: "open".to_owned(),
        source_line: 1,
        evidence: String::new(),
        prior_record_revision: prior,
    }
}

#[test]
fn apply_refuses_records_changed_after_preview() {
    let items = vec![previewed("a", None), previewed("b", Some(3))];
    assert!(check_records_unchanged(&items, &vec![None, Some(3)]).is_ok());
    let e = check_records_unchanged(&items, &vec![None, Some(4)]).unwrap_err();
    assert_eq!(e.code, "stale_import_record");
    assert!(check_records_unchanged(&items, &vec![Some(1), Some(3)]).is_err());
}
