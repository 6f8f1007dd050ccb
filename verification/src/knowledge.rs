//! Knowledge records and decisions: kinds and statuses, bounded text, case-insensitive
//! uniqueness of tags and scope values, listing pages and full-text search queries.
use vstd::prelude::*;

use crate::error::{bad_request_view, AppError, ErrorView};
use crate::text::{
    alphanumeric, char_is_alphanumeric, chars_of, first_index, find_char, join_chars, join_seq,
    parse_i64, parse_i64_text, slice_chars, str_eq, string_from_chars, views, words, words_of,
};
use crate::validation::{
    bounded_message, bounded_ok, check_bounded, check_unique_bounded, strings, unique_bounded_error,
};

verus! {

/// Knowledge text: at most `max` bytes, no NUL, nonempty when required.
pub fn bounded(value: &str, name: &str, max: usize, required: bool) -> (r: Result<(), AppError>)
    ensures
        r is Ok <==> bounded_ok(value@, max as nat, required),
        r matches Err(e) ==> e@ == bad_request_view(bounded_message(name@, max as nat, required)),
{
    check_bounded(value, name, max, required)
}

pub open spec fn knowledge_kind(v: Seq<char>) -> bool {
    v == "lesson"@ || v == "fact"@ || v == "rejected_approach"@ || v == "checkpoint"@
}

pub open spec fn knowledge_status(v: Seq<char>) -> bool {
    v == "observed"@ || v == "validated"@ || v == "deprecated"@ || v == "superseded"@
}

pub fn valid_knowledge_kind(value: &str) -> (r: bool)
    ensures
        r == knowledge_kind(value@),
{
    str_eq(value, "lesson") || str_eq(value, "fact") || str_eq(value, "rejected_approach")
        || str_eq(value, "checkpoint")
}

pub fn valid_knowledge_status(value: &str) -> (r: bool)
    ensures
        r == knowledge_status(value@),
{
    str_eq(value, "observed") || str_eq(value, "validated") || str_eq(value, "deprecated")
        || str_eq(value, "superseded")
}

/// The first rule a tag list breaks: at most 50 tags, each bounded, unique ignoring case.
pub open spec fn tags_error(tags: Seq<Seq<char>>) -> Option<ErrorView> {
    if tags.len() > 50 {
        Some(bad_request_view("Provide no more than 50 tags."@))
    } else {
        unique_bounded_error(
            tags,
            tags.len(),
            "tag"@,
            64,
            true,
            "Knowledge tags must be unique ignoring case."@,
        )
    }
}

pub fn validate_tags(tags: &Vec<String>) -> (r: Result<(), AppError>)
    ensures
        match tags_error(strings(tags@)) {
            None => r is Ok,
            Some(v) => (r matches Err(e) && e@ == v),
        },
{
    if tags.len() > 50 {
        return Err(AppError::bad_request("Provide no more than 50 tags."));
    }
    check_unique_bounded(tags, "tag", 64, true, "Knowledge tags must be unique ignoring case.")
}

/// Where a knowledge record applies.
pub struct KnowledgeScope {
    pub task_ids: Vec<String>,
    pub components: Vec<String>,
    pub environments: Vec<String>,
    pub versions: Vec<String>,
}

pub open spec fn scope_error(scope: KnowledgeScope) -> Option<ErrorView> {
    let tasks = strings(scope.task_ids@);
    let components = strings(scope.components@);
    let environments = strings(scope.environments@);
    let versions = strings(scope.versions@);
    if tasks.len() > 100 || components.len() > 50 || environments.len() > 50 || versions.len()
        > 50 {
        Some(bad_request_view("Knowledge scope contains too many values."@))
    } else if unique_bounded_error(
        tasks,
        tasks.len(),
        "scope task id"@,
        128,
        false,
        "Knowledge scope task IDs must be unique."@,
    ) is Some {
        unique_bounded_error(
            tasks,
            tasks.len(),
            "scope task id"@,
            128,
            false,
            "Knowledge scope task IDs must be unique."@,
        )
    } else if unique_bounded_error(
        components,
        components.len(),
        "component"@,
        255,
        true,
        "Knowledge scope component values must be unique ignoring case."@,
    ) is Some {
        unique_bounded_error(
            components,
            components.len(),
            "component"@,
            255,
            true,
            "Knowledge scope component values must be unique ignoring case."@,
        )
    } else if unique_bounded_error(
        environments,
        environments.len(),
        "environment"@,
        255,
        true,
        "Knowledge scope environment values must be unique ignoring case."@,
    ) is Some {
        unique_bounded_error(
            environments,
            environments.len(),
            "environment"@,
            255,
            true,
            "Knowledge scope environment values must be unique ignoring case."@,
        )
    } else {
        unique_bounded_error(
            versions,
            versions.len(),
            "version"@,
            255,
            true,
            "Knowledge scope version values must be unique ignoring case."@,
        )
    }
}

pub fn validate_scope(scope: &KnowledgeScope) -> (r: Result<(), AppError>)
    ensures
        match scope_error(*scope) {
            None => r is Ok,
            Some(v) => (r matches Err(e) && e@ == v),
        },
{
    if scope.task_ids.len() > 100 || scope.components.len() > 50 || scope.environments.len() > 50
        || scope.versions.len() > 50 {
        return Err(AppError::bad_request("Knowledge scope contains too many values."));
    }
    check_unique_bounded(
        &scope.task_ids,
        "scope task id",
        128,
        false,
        "Knowledge scope task IDs must be unique.",
    )?;
    check_unique_bounded(
        &scope.components,
        "component",
        255,
        true,
        "Knowledge scope component values must be unique ignoring case.",
    )?;
    check_unique_bounded(
        &scope.environments,
        "environment",
        255,
        true,
        "Knowledge scope environment values must be unique ignoring case.",
    )?;
    check_unique_bounded(
        &scope.versions,
        "version",
        255,
        true,
        "Knowledge scope version values must be unique ignoring case.",
    )
}

/// Where a knowledge record came from.
pub struct KnowledgeProvenance {
    pub summary: String,
    pub source_uri: Option<String>,
    pub source_task_id: Option<String>,
    pub source_submission_id: Option<String>,
}

pub open spec fn optional_bounded_error(
    value: Option<String>,
    name: Seq<char>,
    max: nat,
) -> Option<ErrorView> {
    match value {
        Some(v) => if bounded_ok(v@, max, true) {
            None
        } else {
            Some(bad_request_view(bounded_message(name, max, true)))
        },
        None => None,
    }
}

pub open spec fn provenance_error(p: KnowledgeProvenance) -> Option<ErrorView> {
    if !bounded_ok(p.summary@, 4096, true) {
        Some(bad_request_view(bounded_message("provenance summary"@, 4096, true)))
    } else if optional_bounded_error(p.source_uri, "provenance source_uri"@, 4096) is Some {
        optional_bounded_error(p.source_uri, "provenance source_uri"@, 4096)
    } else if optional_bounded_error(p.source_task_id, "provenance source_task_id"@, 128) is Some {
        optional_bounded_error(p.source_task_id, "provenance source_task_id"@, 128)
    } else {
        optional_bounded_error(p.source_submission_id, "provenance source_submission_id"@, 128)
    }
}

fn check_optional(value: &Option<String>, name: &str, max: usize) -> (r: Result<(), AppError>)
    ensures
        match optional_bounded_error(*value, name@, max as nat) {
            None => r is Ok,
            Some(v) => (r matches Err(e) && e@ == v),
        },
{
    match value {
        Some(v) => check_bounded(v.as_str(), name, max, true),
        None => Ok(()),
    }
}

pub fn validate_provenance(value: &KnowledgeProvenance) -> (r: Result<(), AppError>)
    ensures
        match provenance_error(*value) {
            None => r is Ok,
            Some(v) => (r matches Err(e) && e@ == v),
        },
{
    check_bounded(value.summary.as_str(), "provenance summary", 4096, true)?;
    check_optional(&value.source_uri, "provenance source_uri", 4096)?;
    check_optional(&value.source_task_id, "provenance source_task_id", 128)?;
    check_optional(&value.source_submission_id, "provenance source_submission_id", 128)
}

/// A knowledge record as submitted.
pub struct KnowledgeInput {
    pub kind: String,
    pub status: String,
    pub title: String,
    pub body: String,
    pub applicability: String,
    pub scope: KnowledgeScope,
    pub tags: Vec<String>,
    pub provenance: KnowledgeProvenance,
    pub collection: String,
    pub share_across_projects: bool,
}

pub open spec fn collection_message() -> Seq<char> {
    "Shared knowledge requires collection=shared and share_across_projects=true; project knowledge requires both to be project-scoped."@
}

/// The first rule a knowledge record breaks, or `None` when it is acceptable.
pub open spec fn knowledge_error(input: KnowledgeInput) -> Option<ErrorView> {
    if !knowledge_kind(input.kind@) || !knowledge_status(input.status@) {
        Some(bad_request_view("Knowledge kind or status is not supported."@))
    } else if !bounded_ok(input.title@, 255, true) {
        Some(bad_request_view(bounded_message("title"@, 255, true)))
    } else if !bounded_ok(input.body@, 32768, true) {
        Some(bad_request_view(bounded_message("body"@, 32768, true)))
    } else if !bounded_ok(input.applicability@, 4096, false) {
        Some(bad_request_view(bounded_message("applicability"@, 4096, false)))
    } else if scope_error(input.scope) is Some {
        scope_error(input.scope)
    } else if tags_error(strings(input.tags@)) is Some {
        tags_error(strings(input.tags@))
    } else if provenance_error(input.provenance) is Some {
        provenance_error(input.provenance)
    } else if !(input.collection@ == "project"@ || input.collection@ == "shared"@) || (
    input.collection@ == "shared"@) != input.share_across_projects {
        Some(bad_request_view(collection_message()))
    } else {
        None
    }
}

pub fn validate_knowledge(input: &KnowledgeInput) -> (r: Result<(), AppError>)
    ensures
        match knowledge_error(*input) {
            None => r is Ok,
            Some(v) => (r matches Err(e) && e@ == v),
        },
{
    if !valid_knowledge_kind(input.kind.as_str()) || !valid_knowledge_status(input.status.as_str()) {
        return Err(AppError::bad_request("Knowledge kind or status is not supported."));
    }
    check_bounded(input.title.as_str(), "title", 255, true)?;
    check_bounded(input.body.as_str(), "body", 32768, true)?;
    check_bounded(input.applicability.as_str(), "applicability", 4096, false)?;
    validate_scope(&input.scope)?;
    validate_tags(&input.tags)?;
    validate_provenance(&input.provenance)?;
    let collection = input.collection.as_str();
    let known = str_eq(collection, "project") || str_eq(collection, "shared");
    if !known || str_eq(collection, "shared") != input.share_across_projects {
        return Err(
            AppError::bad_request(
                "Shared knowledge requires collection=shared and share_across_projects=true; project knowledge requires both to be project-scoped.",
            ),
        );
    }
    Ok(())
}

/// Query of a knowledge listing.
pub struct KnowledgePage {
    pub cursor: Option<String>,
    pub limit: Option<i64>,
    pub kind: Option<String>,
    pub status: Option<String>,
    pub tag: Option<String>,
    pub include_shared: bool,
}

pub open spec fn invalid_cursor() -> ErrorView {
    bad_request_view("Invalid knowledge cursor."@)
}

/// A knowledge cursor `TIME:ID`: the text before the first `:` is an `i64`, the rest an id.
pub open spec fn knowledge_cursor(c: Seq<char>) -> Result<(int, Seq<char>), ErrorView> {
    match first_index(c, ':') {
        None => Err(invalid_cursor()),
        Some(k) => match parse_i64_text(c.subrange(0, k)) {
            None => Err(invalid_cursor()),
            Some(t) => {
                let id = c.subrange(k + 1, c.len() as int);
                if bounded_ok(id, 128, true) {
                    Ok((t, id))
                } else {
                    Err(bad_request_view(bounded_message("cursor"@, 128, true)))
                }
            },
        },
    }
}

/// The cursor of the next list page: the last row's time, `:`, then its id.
pub open spec fn time_cursor_text(time: i64, id: Seq<char>) -> Seq<char> {
    crate::history::signed_decimal(time as int) + ":"@ + id
}

pub fn time_cursor(time: i64, id: &str) -> (r: String)
    ensures
        r@ == time_cursor_text(time, id@),
{
    let digits = string_from_chars(&crate::history::i64_text(time));
    let head = crate::text::concat(digits.as_str(), ":");
    crate::text::concat(head.as_str(), id)
}

/// A knowledge cursor the list hands out reads back as the row it was made from.
pub proof fn law_knowledge_cursor_reads_back(time: i64, id: Seq<char>)
    requires
        bounded_ok(id, 128, true),
    ensures
        knowledge_cursor(time_cursor_text(time, id)) == Ok::<(int, Seq<char>), ErrorView>(
            (time as int, id),
        ),
{
    reveal_strlit(":");
    assert(":"@ =~= seq![':']);
    crate::text::lemma_split_after_signed_decimal(time, ':', id);
}

impl KnowledgePage {
    /// The page size: 50 by default, else 1 to 200.
    pub fn limit(&self) -> (r: Result<i64, AppError>)
        ensures
            ({
                let n = match self.limit {
                    Some(n) => n,
                    None => 50,
                };
                if 1 <= n <= 200 {
                    r == Ok::<i64, AppError>(n)
                } else {
                    (r matches Err(e) && e@ == bad_request_view(
                        "limit must be between 1 and 200."@,
                    ))
                }
            }),
    {
        let limit = match self.limit {
            Some(n) => n,
            None => 50,
        };
        if !(1 <= limit && limit <= 200) {
            return Err(AppError::bad_request("limit must be between 1 and 200."));
        }
        Ok(limit)
    }

    /// The decoded cursor: `(None, None)` without one.
    pub fn cursor(&self) -> (r: Result<(Option<i64>, Option<String>), AppError>)
        ensures
            match self.cursor {
                None => (r matches Ok(p) && p.0 is None && p.1 is None),
                Some(c) => match knowledge_cursor(c@) {
                    Ok((t, id)) => (r matches Ok(p) && p.0 == Some(t as i64) && (p.1 matches Some(
                        s,
                    ) && s@ == id)),
                    Err(v) => (r matches Err(e) && e@ == v),
                },
            },
    {
        let cursor = match &self.cursor {
            None => {
                return Ok((None, None));
            },
            Some(c) => c,
        };
        let chars = chars_of(cursor.as_str());
        let colon = match find_char(&chars, ':') {
            None => {
                return Err(AppError::bad_request("Invalid knowledge cursor."));
            },
            Some(k) => k,
        };
        proof {
            crate::text::lemma_first_index(chars@, ':');
        }
        let time = match parse_i64(&slice_chars(&chars, 0, colon)) {
            None => {
                return Err(AppError::bad_request("Invalid knowledge cursor."));
            },
            Some(t) => t,
        };
        let id = string_from_chars(&slice_chars(&chars, colon + 1, chars.len()));
        check_bounded(id.as_str(), "cursor", 128, true)?;
        Ok((Some(time), Some(id)))
    }
}

/// Characters stripped from the ends of a search word.
pub open spec fn fts_strip(c: char) -> bool {
    !alphanumeric(c) && c != '_' && c != '-'
}

pub open spec fn strip_start(s: Seq<char>) -> Seq<char>
    decreases s.len(),
{
    if s.len() > 0 && fts_strip(s[0]) {
        strip_start(s.drop_first())
    } else {
        s
    }
}

pub open spec fn strip_end(s: Seq<char>) -> Seq<char>
    decreases s.len(),
{
    if s.len() > 0 && fts_strip(s.last()) {
        strip_end(s.drop_last())
    } else {
        s
    }
}

/// A search word without surrounding punctuation.
pub open spec fn fts_token(s: Seq<char>) -> Seq<char> {
    strip_end(strip_start(s))
}

/// The characters of `s` with each `"` doubled.
pub open spec fn quote_escape(s: Seq<char>) -> Seq<char>
    decreases s.len(),
{
    if s.len() == 0 {
        seq![]
    } else if s.last() == '"' {
        quote_escape(s.drop_last()) + seq!['"', '"']
    } else {
        quote_escape(s.drop_last()).push(s.last())
    }
}

/// A quoted search phrase.
pub open spec fn quoted(s: Seq<char>) -> Seq<char> {
    seq!['"'] + quote_escape(s) + seq!['"']
}

/// The first 32 nonempty stripped words, each quoted.
pub open spec fn fts_terms(ws: Seq<Seq<char>>) -> Seq<Seq<char>>
    decreases ws.len(),
{
    if ws.len() == 0 {
        seq![]
    } else {
        let prev = fts_terms(ws.drop_last());
        let t = fts_token(ws.last());
        if t.len() > 0 && prev.len() < 32 {
            prev.push(quoted(t))
        } else {
            prev
        }
    }
}

pub proof fn lemma_fts_terms_bound(ws: Seq<Seq<char>>)
    ensures
        fts_terms(ws).len() <= 32,
        fts_terms(ws).len() <= ws.len(),
    decreases ws.len(),
{
    if ws.len() > 0 {
        lemma_fts_terms_bound(ws.drop_last());
    }
}

/// The full-text query for `q`: its first 32 search words, quoted and joined with AND.
pub open spec fn fts_query_result(q: Seq<char>) -> Result<Seq<char>, ErrorView> {
    let terms = fts_terms(words(q));
    if !bounded_ok(q, 1024, true) {
        Err(bad_request_view(bounded_message("q"@, 1024, true)))
    } else if terms.len() == 0 {
        Err(bad_request_view("q must contain searchable words."@))
    } else {
        Ok(join_seq(terms, " AND "@))
    }
}

fn char_fts_strip(c: char) -> (r: bool)
    ensures
        r == fts_strip(c),
{
    !char_is_alphanumeric(c) && c != '_' && c != '-'
}

/// The word without leading and trailing stripped characters.
fn fts_token_of(v: &Vec<char>) -> (r: Vec<char>)
    ensures
        r@ == fts_token(v@),
{
    let mut start: usize = 0;
    assert(v@.subrange(0, v.len() as int) =~= v@);
    while start < v.len() && char_fts_strip(v[start])
        invariant
            start <= v.len(),
            strip_start(v@) == strip_start(v@.subrange(start as int, v.len() as int)),
        decreases v.len() - start,
    {
        let ghost u = v@.subrange(start as int, v.len() as int);
        assert(u.drop_first() =~= v@.subrange(start + 1, v.len() as int));
        start = start + 1;
    }
    assert(v@.subrange(0, v.len() as int) =~= v@);
    let ghost t = v@.subrange(start as int, v.len() as int);
    assert(strip_start(v@) == t);
    let mut end: usize = v.len();
    while end > start && char_fts_strip(v[end - 1])
        invariant
            start <= end <= v.len(),
            t == v@.subrange(start as int, v.len() as int),
            strip_end(t) == strip_end(v@.subrange(start as int, end as int)),
        decreases end,
    {
        let ghost u = v@.subrange(start as int, end as int);
        assert(u.drop_last() =~= v@.subrange(start as int, end - 1));
        end = end - 1;
    }
    slice_chars(v, start, end)
}

fn quote_chars(v: &Vec<char>) -> (r: Vec<char>)
    ensures
        r@ == quoted(v@),
{
    let mut r: Vec<char> = Vec::new();
    r.push('"');
    let mut i: usize = 0;
    while i < v.len()
        invariant
            i <= v.len(),
            r@ == seq!['"'] + quote_escape(v@.subrange(0, i as int)),
        decreases v.len() - i,
    {
        let c = v[i];
        assert(v@.subrange(0, i + 1).drop_last() =~= v@.subrange(0, i as int));
        if c == '"' {
            r.push('"');
            r.push('"');
        } else {
            r.push(c);
        }
        i = i + 1;
    }
    assert(v@.subrange(0, v.len() as int) =~= v@);
    r.push('"');
    r
}

pub fn fts_query(value: &str) -> (r: Result<String, AppError>)
    ensures
        match fts_query_result(value@) {
            Ok(q) => (r matches Ok(s) && s@ == q),
            Err(v) => (r matches Err(e) && e@ == v),
        },
{
    check_bounded(value, "q", 1024, true)?;
    let ws = words_of(&chars_of(value));
    let mut terms: Vec<Vec<char>> = Vec::new();
    let mut i: usize = 0;
    while i < ws.len()
        invariant
            i <= ws.len(),
            views(terms@) == fts_terms(views(ws@).subrange(0, i as int)),
        decreases ws.len() - i,
    {
        let ghost pre = views(ws@).subrange(0, i as int);
        assert(views(ws@).subrange(0, i + 1).drop_last() =~= pre);
        assert(views(ws@).subrange(0, i + 1).last() == ws@[i as int]@);
        let t = fts_token_of(&ws[i]);
        if t.len() > 0 && terms.len() < 32 {
            let q = quote_chars(&t);
            let ghost before = terms@;
            terms.push(q);
            assert(views(terms@) =~= views(before).push(quoted(t@)));
        }
        i = i + 1;
    }
    assert(views(ws@).subrange(0, ws@.len() as int) =~= views(ws@));
    if terms.len() == 0 {
        return Err(AppError::bad_request("q must contain searchable words."));
    }
    let sep = chars_of(" AND ");
    let joined = join_chars(&terms, &sep);
    Ok(string_from_chars(&joined))
}

/// One task revision a decision affects.
pub struct DecisionTaskInput {
    pub task_id: String,
    pub task_revision: i64,
}

pub open spec fn task_ids(tasks: Seq<DecisionTaskInput>) -> Seq<Seq<char>> {
    tasks.map_values(|t: DecisionTaskInput| t.task_id@)
}

pub open spec fn decision_tasks_message() -> Seq<char> {
    "Affected task IDs must be unique and revisions positive."@
}

/// The first rule broken by the first `n` affected tasks.
pub open spec fn decision_tasks_prefix_error(tasks: Seq<DecisionTaskInput>, n: nat) -> Option<
    ErrorView,
>
    decreases n,
{
    if n == 0 {
        None
    } else {
        let prev = decision_tasks_prefix_error(tasks, (n - 1) as nat);
        let t = tasks[n - 1];
        if prev is Some {
            prev
        } else if !bounded_ok(t.task_id@, 128, true) {
            Some(bad_request_view(bounded_message("affected task id"@, 128, true)))
        } else if t.task_revision <= 0 || (exists|i: int|
            0 <= i < n - 1 && #[trigger] tasks[i].task_id@ == t.task_id@) {
            Some(bad_request_view(decision_tasks_message()))
        } else {
            None
        }
    }
}

pub open spec fn decision_tasks_error(tasks: Seq<DecisionTaskInput>) -> Option<ErrorView> {
    if tasks.len() == 0 || tasks.len() > 100 {
        Some(bad_request_view("A decision must affect 1–100 exact task revisions."@))
    } else {
        decision_tasks_prefix_error(tasks, tasks.len())
    }
}

proof fn lemma_tasks_error_stable(tasks: Seq<DecisionTaskInput>, a: nat, b: nat)
    requires
        a <= b,
        decision_tasks_prefix_error(tasks, a) is Some,
    ensures
        decision_tasks_prefix_error(tasks, b) == decision_tasks_prefix_error(tasks, a),
    decreases b - a,
{
    if a < b {
        lemma_tasks_error_stable(tasks, a, (b - 1) as nat);
    }
}

pub fn validate_decision_tasks(tasks: &Vec<DecisionTaskInput>) -> (r: Result<(), AppError>)
    ensures
        match decision_tasks_error(tasks@) {
            None => r is Ok,
            Some(v) => (r matches Err(e) && e@ == v),
        },
{
    if tasks.len() == 0 || tasks.len() > 100 {
        return Err(AppError::bad_request("A decision must affect 1–100 exact task revisions."));
    }
    let mut j: usize = 0;
    while j < tasks.len()
        invariant
            j <= tasks.len(),
            1 <= tasks.len() <= 100,
            decision_tasks_prefix_error(tasks@, j as nat) is None,
        decreases tasks.len() - j,
    {
        let task = &tasks[j];
        let checked = check_bounded(task.task_id.as_str(), "affected task id", 128, true);
        if checked.is_err() {
            proof {
                assert(decision_tasks_prefix_error(tasks@, (j + 1) as nat) == Some(
                    bad_request_view(bounded_message("affected task id"@, 128, true)),
                ));
                lemma_tasks_error_stable(tasks@, (j + 1) as nat, tasks.len() as nat);
            }
            return checked;
        }
        let mut seen = false;
        let mut i: usize = 0;
        while i < j
            invariant
                i <= j < tasks.len(),
                task == tasks@[j as int],
                seen == (exists|k: int| 0 <= k < i && #[trigger] tasks@[k].task_id@ == task.task_id@),
            decreases j - i,
        {
            if str_eq(tasks[i].task_id.as_str(), task.task_id.as_str()) {
                seen = true;
            }
            i = i + 1;
        }
        if task.task_revision <= 0 || seen {
            proof {
                assert(decision_tasks_prefix_error(tasks@, (j + 1) as nat) == Some(
                    bad_request_view(decision_tasks_message()),
                ));
                lemma_tasks_error_stable(tasks@, (j + 1) as nat, tasks.len() as nat);
            }
            return Err(
                AppError::bad_request("Affected task IDs must be unique and revisions positive."),
            );
        }
        j = j + 1;
    }
    Ok(())
}

/// A decision as submitted.
pub struct DecisionInput {
    pub question: String,
    pub rationale: String,
    pub environment: String,
    pub conditions: String,
    pub required_actor: String,
    pub options: Vec<String>,
    pub affected_tasks: Vec<DecisionTaskInput>,
    pub policy_revision: i64,
}

/// The first rule a decision breaks, or `None` when it is acceptable.
pub open spec fn decision_error(input: DecisionInput) -> Option<ErrorView> {
    let options = strings(input.options@);
    let actor = input.required_actor@;
    if !bounded_ok(input.question@, 4096, true) {
        Some(bad_request_view(bounded_message("question"@, 4096, true)))
    } else if !bounded_ok(input.rationale@, 8192, true) {
        Some(bad_request_view(bounded_message("rationale"@, 8192, true)))
    } else if !bounded_ok(input.environment@, 2048, false) {
        Some(bad_request_view(bounded_message("environment"@, 2048, false)))
    } else if !bounded_ok(input.conditions@, 4096, false) {
        Some(bad_request_view(bounded_message("conditions"@, 4096, false)))
    } else if !(actor == "human"@ || actor == "agent"@ || actor == "either"@) {
        Some(bad_request_view("required_actor must be human, agent, or either."@))
    } else if options.len() < 2 || options.len() > 20 {
        Some(bad_request_view("Provide 2–20 decision options."@))
    } else if unique_bounded_error(
        options,
        options.len(),
        "decision option"@,
        2048,
        false,
        "Decision options must be unique."@,
    ) is Some {
        unique_bounded_error(
            options,
            options.len(),
            "decision option"@,
            2048,
            false,
            "Decision options must be unique."@,
        )
    } else if decision_tasks_error(input.affected_tasks@) is Some {
        decision_tasks_error(input.affected_tasks@)
    } else if input.policy_revision <= 0 {
        Some(bad_request_view("Use a positive current policy_revision."@))
    } else {
        None
    }
}

pub fn validate_decision(input: &DecisionInput) -> (r: Result<(), AppError>)
    ensures
        match decision_error(*input) {
            None => r is Ok,
            Some(v) => (r matches Err(e) && e@ == v),
        },
{
    check_bounded(input.question.as_str(), "question", 4096, true)?;
    check_bounded(input.rationale.as_str(), "rationale", 8192, true)?;
    check_bounded(input.environment.as_str(), "environment", 2048, false)?;
    check_bounded(input.conditions.as_str(), "conditions", 4096, false)?;
    let actor = input.required_actor.as_str();
    if !(str_eq(actor, "human") || str_eq(actor, "agent") || str_eq(actor, "either")) {
        return Err(AppError::bad_request("required_actor must be human, agent, or either."));
    }
    if input.options.len() < 2 || input.options.len() > 20 {
        return Err(AppError::bad_request("Provide 2–20 decision options."));
    }
    check_unique_bounded(
        &input.options,
        "decision option",
        2048,
        false,
        "Decision options must be unique.",
    )?;
    validate_decision_tasks(&input.affected_tasks)?;
    if input.policy_revision <= 0 {
        return Err(AppError::bad_request("Use a positive current policy_revision."));
    }
    Ok(())
}

/// A correction of a knowledge record, stored as its next revision.
pub struct KnowledgeEditInput {
    pub title: String,
    pub body: String,
    pub status: String,
    pub scope: KnowledgeScope,
    pub tags: Vec<String>,
    pub applicability: String,
    pub provenance: KnowledgeProvenance,
    pub superseded_by_id: Option<String>,
    pub expected_revision: i64,
}

/// A correction is checked as a project lesson with its fields, then needs a positive
/// expected revision.
pub open spec fn knowledge_edit_error(input: KnowledgeEditInput) -> Option<ErrorView> {
    if !knowledge_status(input.status@) {
        Some(bad_request_view("Knowledge kind or status is not supported."@))
    } else if !bounded_ok(input.title@, 255, true) {
        Some(bad_request_view(bounded_message("title"@, 255, true)))
    } else if !bounded_ok(input.body@, 32768, true) {
        Some(bad_request_view(bounded_message("body"@, 32768, true)))
    } else if !bounded_ok(input.applicability@, 4096, false) {
        Some(bad_request_view(bounded_message("applicability"@, 4096, false)))
    } else if scope_error(input.scope) is Some {
        scope_error(input.scope)
    } else if tags_error(strings(input.tags@)) is Some {
        tags_error(strings(input.tags@))
    } else if provenance_error(input.provenance) is Some {
        provenance_error(input.provenance)
    } else if input.expected_revision <= 0 {
        Some(bad_request_view("expected_revision must be positive."@))
    } else {
        None
    }
}

pub fn validate_knowledge_edit(input: &KnowledgeEditInput) -> (r: Result<(), AppError>)
    ensures
        match knowledge_edit_error(*input) {
            None => r is Ok,
            Some(v) => (r matches Err(e) && e@ == v),
        },
{
    if !valid_knowledge_status(input.status.as_str()) {
        return Err(AppError::bad_request("Knowledge kind or status is not supported."));
    }
    check_bounded(input.title.as_str(), "title", 255, true)?;
    check_bounded(input.body.as_str(), "body", 32768, true)?;
    check_bounded(input.applicability.as_str(), "applicability", 4096, false)?;
    validate_scope(&input.scope)?;
    validate_tags(&input.tags)?;
    validate_provenance(&input.provenance)?;
    if input.expected_revision <= 0 {
        return Err(AppError::bad_request("expected_revision must be positive."));
    }
    Ok(())
}

/// A correction names the record's current revision.
pub fn check_knowledge_revision(current: i64, expected: i64) -> (r: Result<(), AppError>)
    ensures
        r is Ok <==> current == expected,
        r matches Err(e) ==> e@ == crate::error::conflict_view(
            "revision_conflict"@,
            "Read the current knowledge revision before correcting it."@,
        ),
{
    if current != expected {
        return Err(
            AppError::conflict(
                "revision_conflict",
                "Read the current knowledge revision before correcting it.",
            ),
        );
    }
    Ok(())
}

/// A superseded revision names the existing record that supersedes it, and only a
/// superseded revision names one.
pub open spec fn supersession_error(status: Seq<char>, superseded_by: bool, superseding_exists: bool) -> Option<
    ErrorView,
> {
    if superseded_by {
        if status != "superseded"@ {
            Some(bad_request_view("superseded_by_id requires status=superseded."@))
        } else if !superseding_exists {
            Some(bad_request_view("The superseding knowledge record does not exist."@))
        } else {
            None
        }
    } else if status == "superseded"@ {
        Some(bad_request_view("A superseded revision requires superseded_by_id."@))
    } else {
        None
    }
}

pub fn check_supersession(status: &str, superseded_by: bool, superseding_exists: bool) -> (r: Result<
    (),
    AppError,
>)
    ensures
        match supersession_error(status@, superseded_by, superseding_exists) {
            None => r is Ok,
            Some(v) => (r matches Err(e) && e@ == v),
        },
{
    let superseded = str_eq(status, "superseded");
    if superseded_by {
        if !superseded {
            return Err(AppError::bad_request("superseded_by_id requires status=superseded."));
        }
        if !superseding_exists {
            return Err(AppError::bad_request("The superseding knowledge record does not exist."));
        }
        return Ok(());
    }
    if superseded {
        return Err(AppError::bad_request("A superseded revision requires superseded_by_id."));
    }
    Ok(())
}

/// Feedback carries a comment of at most 2048 bytes and a positive expected revision.
pub open spec fn feedback_error(comment: Seq<char>, expected_revision: i64) -> Option<ErrorView> {
    if !bounded_ok(comment, 2048, false) {
        Some(bad_request_view(bounded_message("comment"@, 2048, false)))
    } else if expected_revision <= 0 {
        Some(bad_request_view("expected_revision must be positive."@))
    } else {
        None
    }
}

pub fn validate_feedback(comment: &str, expected_revision: i64) -> (r: Result<(), AppError>)
    ensures
        match feedback_error(comment@, expected_revision) {
            None => r is Ok,
            Some(v) => (r matches Err(e) && e@ == v),
        },
{
    check_bounded(comment, "comment", 2048, false)?;
    if expected_revision <= 0 {
        return Err(AppError::bad_request("expected_revision must be positive."));
    }
    Ok(())
}

/// Feedback is recorded against the record's current revision.
pub fn check_feedback_revision(current: i64, expected: i64) -> (r: Result<(), AppError>)
    ensures
        r is Ok <==> current == expected,
        r matches Err(e) ==> e@ == crate::error::conflict_view(
            "revision_conflict"@,
            "Read the current knowledge revision before recording feedback."@,
        ),
{
    if current != expected {
        return Err(
            AppError::conflict(
                "revision_conflict",
                "Read the current knowledge revision before recording feedback.",
            ),
        );
    }
    Ok(())
}

/// A lesson recorded together with a task submission.
pub struct SubmissionLesson {
    pub kind: String,
    pub title: String,
    pub body: String,
    pub status: String,
    pub scope: KnowledgeScope,
    pub tags: Vec<String>,
    pub applicability: String,
    pub provenance_summary: String,
    pub source_uri: Option<String>,
    pub collection: String,
    pub share_across_projects: bool,
}

/// A submission carries at most 50 lessons.
pub fn check_lesson_count(n: usize) -> (r: Result<(), AppError>)
    ensures
        r is Ok <==> n <= 50,
        r matches Err(e) ==> e@ == bad_request_view("A submission may include at most 50 lessons."@),
{
    if n > 50 {
        return Err(AppError::bad_request("A submission may include at most 50 lessons."));
    }
    Ok(())
}

/// The provenance summary of a submitted lesson: its own, or a note that it came with the
/// immutable submission when it gave none.
pub open spec fn lesson_summary(summary: Seq<char>) -> Seq<char> {
    if crate::text::is_blank(summary) {
        "Created with the immutable task submission."@
    } else {
        summary
    }
}

/// The knowledge record a submitted lesson becomes: its own fields, its provenance tied to
/// the exact source task and submission.
pub fn lesson_knowledge(lesson: SubmissionLesson, task_id: &str, submission_id: &str) -> (r: KnowledgeInput)
    ensures
        r.kind == lesson.kind,
        r.title == lesson.title,
        r.body == lesson.body,
        r.status == lesson.status,
        r.scope == lesson.scope,
        r.tags == lesson.tags,
        r.applicability == lesson.applicability,
        r.collection == lesson.collection,
        r.share_across_projects == lesson.share_across_projects,
        r.provenance.summary@ == lesson_summary(lesson.provenance_summary@),
        r.provenance.source_uri == lesson.source_uri,
        (r.provenance.source_task_id matches Some(t) && t@ == task_id@),
        (r.provenance.source_submission_id matches Some(t) && t@ == submission_id@),
{
    let summary = if crate::text::blank(lesson.provenance_summary.as_str()) {
        "Created with the immutable task submission.".to_owned()
    } else {
        lesson.provenance_summary
    };
    KnowledgeInput {
        kind: lesson.kind,
        title: lesson.title,
        body: lesson.body,
        status: lesson.status,
        scope: lesson.scope,
        tags: lesson.tags,
        applicability: lesson.applicability,
        provenance: KnowledgeProvenance {
            summary,
            source_uri: lesson.source_uri,
            source_task_id: Some(task_id.to_owned()),
            source_submission_id: Some(submission_id.to_owned()),
        },
        collection: lesson.collection,
        share_across_projects: lesson.share_across_projects,
    }
}

} // verus!
