//! Task history pages: supported kinds, page sizes, hex-framed cursors bound to one
//! project, task, kind and snapshot, and the keys that are never shown.
use vstd::prelude::*;
use vstd::string::StringSliceAdditionalSpecFns;

use crate::crypto::{hex_decode, hex_decoded, hex_encode, hex_text, sha256, sha256_digest};
use crate::error::{bad_request_view, conflict_view, AppError, ErrorView};
use crate::text::{chars_of, decimal, decimal_chars, str_eq, string_from_chars, utf8, utf8_len};

verus! {

pub const DEFAULT_LIMIT: i64 = 50;

pub const MAX_LIMIT: i64 = 200;

pub const MAX_CURSOR_BYTES: usize = 2048;

pub open spec fn history_kind(k: Seq<char>) -> bool {
    k == "attempts"@ || k == "checkpoints"@ || k == "checkouts"@ || k == "jobs"@ || k
        == "job_observations"@ || k == "resources"@ || k == "artifacts"@ || k == "submissions"@
        || k == "reviews"@ || k == "integrations"@ || k == "task_revisions"@ || k == "events"@
}

pub fn valid_kind(kind: &str) -> (r: bool)
    ensures
        r == history_kind(kind@),
{
    str_eq(kind, "attempts") || str_eq(kind, "checkpoints") || str_eq(kind, "checkouts") || str_eq(
        kind,
        "jobs",
    ) || str_eq(kind, "job_observations") || str_eq(kind, "resources") || str_eq(
        kind,
        "artifacts",
    ) || str_eq(kind, "submissions") || str_eq(kind, "reviews") || str_eq(kind, "integrations")
        || str_eq(kind, "task_revisions") || str_eq(kind, "events")
}

/// The page size of a history query with a supported kind: 50 by default, 1 to 200.
pub open spec fn history_limit(kind: Seq<char>, limit: Option<i64>) -> Result<i64, ErrorView> {
    let n = match limit {
        Some(n) => n,
        None => DEFAULT_LIMIT,
    };
    if !history_kind(kind) {
        Err(bad_request_view("The requested task history kind is not supported."@))
    } else if !(1 <= n <= MAX_LIMIT) {
        Err(bad_request_view("limit must be between 1 and 200."@))
    } else {
        Ok(n)
    }
}

pub fn check_history_query(kind: &str, limit: Option<i64>) -> (r: Result<i64, AppError>)
    ensures
        match history_limit(kind@, limit) {
            Ok(n) => r == Ok::<i64, AppError>(n),
            Err(v) => (r matches Err(e) && e@ == v),
        },
{
    if !valid_kind(kind) {
        return Err(AppError::bad_request("The requested task history kind is not supported."));
    }
    let n = match limit {
        Some(n) => n,
        None => DEFAULT_LIMIT,
    };
    if !(1 <= n && n <= MAX_LIMIT) {
        return Err(AppError::bad_request("limit must be between 1 and 200."));
    }
    Ok(n)
}

pub open spec fn invalid_cursor() -> ErrorView {
    bad_request_view("The history cursor is invalid."@)
}

pub open spec fn all_ascii(s: Seq<char>) -> bool {
    forall|i: int| 0 <= i < s.len() ==> (#[trigger] s[i] as u32) < 128
}

/// The bytes a history cursor carries: nonempty ASCII hex text of at most 2048 bytes.
pub open spec fn cursor_bytes_result(value: Seq<char>) -> Result<Seq<u8>, ErrorView> {
    if value.len() == 0 || utf8_len(value) > MAX_CURSOR_BYTES || !all_ascii(value) {
        Err(invalid_cursor())
    } else {
        match hex_decoded(utf8(value)) {
            Some(b) => Ok(b),
            None => Err(invalid_cursor()),
        }
    }
}

pub fn cursor_bytes(value: &str) -> (r: Result<Vec<u8>, AppError>)
    ensures
        match cursor_bytes_result(value@) {
            Ok(b) => (r matches Ok(v) && v@ == b),
            Err(x) => (r matches Err(e) && e@ == x),
        },
{
    let chars = chars_of(value);
    let mut ascii = true;
    let mut i: usize = 0;
    while i < chars.len()
        invariant
            i <= chars.len(),
            ascii == (forall|k: int| 0 <= k < i ==> (#[trigger] chars@[k] as u32) < 128),
        decreases chars.len() - i,
    {
        if (chars[i] as u32) >= 128 {
            ascii = false;
        }
        i = i + 1;
    }
    if chars.len() == 0 || crate::text::byte_len(value) > MAX_CURSOR_BYTES || !ascii {
        return Err(AppError::bad_request("The history cursor is invalid."));
    }
    match hex_decode(value) {
        Some(b) => Ok(b),
        None => Err(AppError::bad_request("The history cursor is invalid.")),
    }
}

/// A decoded history cursor.
pub struct HistoryCursor {
    pub version: u8,
    pub project_id: String,
    pub task_id: String,
    pub kind: String,
    pub cutoff: i64,
    pub last: i64,
}

/// A cursor belongs to this project, task and kind, and names a position inside its snapshot.
pub open spec fn cursor_fits(c: HistoryCursor, project: Seq<char>, task: Seq<char>, kind: Seq<char>) -> bool {
    c.version == 1 && c.project_id@ == project && c.task_id@ == task && c.kind@ == kind && c.cutoff
        >= 0 && c.last >= 0 && c.last <= c.cutoff
}

/// The snapshot cutoff and last position a cursor resumes from.
pub fn resume_from(cursor: &HistoryCursor, project: &str, task: &str, kind: &str) -> (r: Result<
    (i64, i64),
    AppError,
>)
    ensures
        cursor_fits(*cursor, project@, task@, kind@) ==> r == Ok::<(i64, i64), AppError>(
            (cursor.cutoff, cursor.last),
        ),
        !cursor_fits(*cursor, project@, task@, kind@) ==> (r matches Err(e) && e@ == conflict_view(
            "history_cursor_mismatch"@,
            "The history cursor belongs to another project, task, kind, or snapshot."@,
        )),
{
    if cursor.version != 1 || !str_eq(cursor.project_id.as_str(), project) || !str_eq(
        cursor.task_id.as_str(),
        task,
    ) || !str_eq(cursor.kind.as_str(), kind) || cursor.cutoff < 0 || cursor.last < 0
        || cursor.last > cursor.cutoff {
        return Err(
            AppError::conflict(
                "history_cursor_mismatch",
                "The history cursor belongs to another project, task, kind, or snapshot.",
            ),
        );
    }
    Ok((cursor.cutoff, cursor.last))
}

/// The decimal text of a signed integer (what `i64::to_string` writes).
pub open spec fn signed_decimal(n: int) -> Seq<char> {
    if n < 0 {
        seq!['-'] + decimal((-n) as nat)
    } else {
        decimal(n as nat)
    }
}

pub fn i64_text(n: i64) -> (r: Vec<char>)
    ensures
        r@ == signed_decimal(n as int),
{
    if n < 0 {
        let magnitude: u64 = ((-(n + 1)) as u64) + 1;
        let mut r: Vec<char> = Vec::new();
        r.push('-');
        let digits = decimal_chars(magnitude);
        crate::text::append_chars(&mut r, &digits);
        assert(r@ =~= seq!['-'] + decimal((-n) as nat));
        r
    } else {
        decimal_chars(n as u64)
    }
}

/// The bytes hashed for a page snapshot: project, task, kind and cutoff, each NUL-terminated.
pub open spec fn snapshot_bytes(project: Seq<char>, task: Seq<char>, kind: Seq<char>, cutoff: int) -> Seq<
    u8,
> {
    utf8(project) + seq![0u8] + utf8(task) + seq![0u8] + utf8(kind) + seq![0u8] + utf8(
        signed_decimal(cutoff),
    ) + seq![0u8]
}

/// The snapshot id of a history page.
pub fn snapshot(project: &str, task: &str, kind: &str, cutoff: i64) -> (r: String)
    ensures
        r@ == hex_text(sha256_digest(snapshot_bytes(project@, task@, kind@, cutoff as int))),
{
    let cutoff_text = string_from_chars(&i64_text(cutoff));
    let mut bytes: Vec<u8> = Vec::new();
    push_part(&mut bytes, project);
    push_part(&mut bytes, task);
    push_part(&mut bytes, kind);
    push_part(&mut bytes, cutoff_text.as_str());
    assert(bytes@ =~= snapshot_bytes(project@, task@, kind@, cutoff as int));
    let digest = sha256(bytes.as_slice());
    hex_encode(digest.as_slice())
}

fn push_part(bytes: &mut Vec<u8>, part: &str)
    ensures
        final(bytes)@ == old(bytes)@ + utf8(part@) + seq![0u8],
{
    let b = part.as_bytes();
    let ghost start = bytes@;
    let mut i: usize = 0;
    while i < b.len()
        invariant
            i <= b.len(),
            b@ == utf8(part@),
            bytes@ == start + b@.subrange(0, i as int),
        decreases b.len() - i,
    {
        bytes.push(b[i]);
        assert(b@.subrange(0, i + 1) =~= b@.subrange(0, i as int).push(b@[i as int]));
        i = i + 1;
    }
    assert(b@.subrange(0, b@.len() as int) =~= b@);
    bytes.push(0u8);
}

/// ASCII lowercase of a character.
pub open spec fn lower(c: char) -> char {
    if 'A' <= c && c <= 'Z' {
        ((c as u8) + 32) as char
    } else {
        c
    }
}

pub open spec fn sensitive_parts() -> Seq<Seq<char>> {
    seq![
        "authorization"@,
        "cookie"@,
        "credential"@,
        "password"@,
        "proof"@,
        "request_hash"@,
        "secret"@,
        "session_id"@,
        "token"@,
    ]
}

/// A record field whose name, lowercased, contains a credential-like word; such fields
/// are left out of history records.
pub open spec fn sensitive_key(key: Seq<char>) -> bool {
    exists|p: int|
        0 <= p < sensitive_parts().len() && crate::text::find_seq(
            lower_text(key),
            #[trigger] sensitive_parts()[p],
        ) is Some
}

/// `str::to_ascii_lowercase`.
pub open spec fn lower_text(s: Seq<char>) -> Seq<char> {
    Seq::new(s.len(), |i: int| lower(s[i]))
}

pub fn is_sensitive_key(key: &str) -> (r: bool)
    ensures
        r == sensitive_key(key@),
{
    let chars = chars_of(key);
    let mut lowered: Vec<char> = Vec::new();
    let mut i: usize = 0;
    while i < chars.len()
        invariant
            i <= chars.len(),
            lowered.len() == i,
            forall|k: int| 0 <= k < i ==> lowered@[k] == lower(chars@[k]),
        decreases chars.len() - i,
    {
        let c = chars[i];
        let l = if 'A' <= c && c <= 'Z' {
            ((c as u8) + 32) as char
        } else {
            c
        };
        lowered.push(l);
        i = i + 1;
    }
    assert(lowered@ =~= lower_text(key@));
    let parts: Vec<&str> = vec![
        "authorization",
        "cookie",
        "credential",
        "password",
        "proof",
        "request_hash",
        "secret",
        "session_id",
        "token",
    ];
    assert(parts@.len() == 9);
    let mut p: usize = 0;
    while p < parts.len()
        invariant
            p <= parts.len(),
            lowered@ == lower_text(key@),
            parts@.len() == 9,
            parts@[0]@ == "authorization"@,
            parts@[1]@ == "cookie"@,
            parts@[2]@ == "credential"@,
            parts@[3]@ == "password"@,
            parts@[4]@ == "proof"@,
            parts@[5]@ == "request_hash"@,
            parts@[6]@ == "secret"@,
            parts@[7]@ == "session_id"@,
            parts@[8]@ == "token"@,
            forall|q: int| 0 <= q < p ==> crate::text::find_seq(lowered@, #[trigger] sensitive_parts()[q]) is None,
        decreases parts.len() - p,
    {
        let pattern = chars_of(parts[p]);
        assert(pattern@ == sensitive_parts()[p as int]);
        if crate::text::find_chars(&lowered, &pattern, 0).is_some() {
            assert(crate::text::find_seq(lower_text(key@), sensitive_parts()[p as int]) is Some);
            return true;
        }
        p = p + 1;
    }
    false
}

/// The table whose newest row bounds a history snapshot of `kind`: resources read
/// reservations, reviews and integrations read workflow activities, and every other kind
/// its own table; `None` for an unknown kind.
pub open spec fn snapshot_table(kind: Seq<char>) -> Option<Seq<char>> {
    if !history_kind(kind) {
        None
    } else if kind == "resources"@ {
        Some("reservations"@)
    } else if kind == "reviews"@ || kind == "integrations"@ {
        Some("workflow_activities"@)
    } else {
        Some(kind)
    }
}

pub fn cutoff_table(kind: &str) -> (r: Option<String>)
    ensures
        match snapshot_table(kind@) {
            Some(t) => (r matches Some(x) && x@ == t),
            None => r is None,
        },
{
    if !valid_kind(kind) {
        return None;
    }
    if str_eq(kind, "resources") {
        Some("reservations".to_owned())
    } else if str_eq(kind, "reviews") || str_eq(kind, "integrations") {
        Some("workflow_activities".to_owned())
    } else {
        Some(kind.to_owned())
    }
}

/// A cursor reads back: the hex text of any serialized cursor of 1 to 1024 bytes is accepted
/// A JSON value, as historical event data is stored.
#[derive(Debug, PartialEq, Eq)]
pub enum JsonTree {
    Null,
    Bool(bool),
    /// A number, by its JSON text.
    Number(String),
    Text(String),
    Array(Vec<JsonTree>),
    Object(Vec<JsonField>),
}

/// One member of a JSON object, in document order.
#[derive(Debug, PartialEq, Eq)]
pub struct JsonField {
    pub key: String,
    pub value: JsonTree,
}

/// `r` is `t` with every object member whose key marks it as sensitive dropped, at any
/// depth; everything else, and its order, stays.
pub open spec fn redacted_as(t: JsonTree, r: JsonTree) -> bool
    decreases t, 0int,
{
    match t {
        JsonTree::Null => r == JsonTree::Null,
        JsonTree::Bool(b) => r == JsonTree::Bool(b),
        JsonTree::Number(n) => r matches JsonTree::Number(m) && m@ == n@,
        JsonTree::Text(x) => r matches JsonTree::Text(y) && y@ == x@,
        JsonTree::Array(v) => r matches JsonTree::Array(w) && w.len() == v.len() && forall|i: int|
            0 <= i < v.len() ==> redacted_as(#[trigger] v@[i], w@[i]),
        JsonTree::Object(f) => r matches JsonTree::Object(g) && fields_redacted_as(f@, g@),
    }
}

/// `g` holds the members of `f` whose keys are not sensitive, in order, each redacted.
pub open spec fn fields_redacted_as(f: Seq<JsonField>, g: Seq<JsonField>) -> bool
    decreases f, 1int,
{
    if f.len() == 0 {
        g.len() == 0
    } else if sensitive_key(f.last().key@) {
        fields_redacted_as(f.drop_last(), g)
    } else {
        g.len() > 0 && g.last().key@ == f.last().key@ && redacted_as(f.last().value, g.last().value)
            && fields_redacted_as(f.drop_last(), g.drop_last())
    }
}

/// Drops every object member whose key marks it as sensitive, at any depth, before
/// historical data is shown.
pub fn redact_sensitive(t: &JsonTree) -> (r: JsonTree)
    ensures
        redacted_as(*t, r),
    decreases t,
{
    match t {
        JsonTree::Null => JsonTree::Null,
        JsonTree::Bool(b) => JsonTree::Bool(*b),
        JsonTree::Number(n) => JsonTree::Number(n.clone()),
        JsonTree::Text(x) => JsonTree::Text(x.clone()),
        JsonTree::Array(v) => {
            let mut w: Vec<JsonTree> = Vec::new();
            let mut i: usize = 0;
            while i < v.len()
                invariant
                    i <= v.len(),
                    w.len() == i,
                    *t == JsonTree::Array(*v),
                    forall|k: int| 0 <= k < i ==> redacted_as(#[trigger] v@[k], w@[k]),
                decreases v.len() - i,
            {
                proof {
                    assert(decreases_to!(*t => (*t)->Array_0));
                    assert((*t)->Array_0 == *v);
                    assert(decreases_to!(*v => v@));
                    assert(decreases_to!(v@ => v@[i as int]));
                }
                let x = redact_sensitive(&v[i]);
                w.push(x);
                i = i + 1;
            }
            JsonTree::Array(w)
        },
        JsonTree::Object(f) => {
            let mut g: Vec<JsonField> = Vec::new();
            let mut i: usize = 0;
            while i < f.len()
                invariant
                    i <= f.len(),
                    *t == JsonTree::Object(*f),
                    fields_redacted_as(f@.take(i as int), g@),
                decreases f.len() - i,
            {
                proof {
                    assert(f@.take(i + 1).drop_last() =~= f@.take(i as int));
                    assert(f@.take(i + 1).last() == f@[i as int]);
                }
                if !is_sensitive_key(f[i].key.as_str()) {
                    proof {
                        assert(decreases_to!(*t => (*t)->Object_0));
                        assert((*t)->Object_0 == *f);
                        assert(decreases_to!(*f => f@));
                        assert(decreases_to!(f@ => f@[i as int]));
                        assert(decreases_to!(f@[i as int] => f@[i as int].value));
                    }
                    let value = redact_sensitive(&f[i].value);
                    let ghost before = g@;
                    g.push(JsonField { key: f[i].key.clone(), value });
                    proof {
                        assert(g@.drop_last() =~= before);
                    }
                }
                i = i + 1;
            }
            proof {
                assert(f@.take(f.len() as int) =~= f@);
            }
            JsonTree::Object(g)
        },
    }
}

/// Redacting twice gives what redacting once gives: redacting an already redacted value
/// yields a redaction of the original.
pub proof fn law_redaction_is_idempotent(t: JsonTree, r: JsonTree, r2: JsonTree)
    requires
        redacted_as(t, r),
        redacted_as(r, r2),
    ensures
        redacted_as(t, r2),
    decreases t, 0int,
{
    match t {
        JsonTree::Array(v) => {
            let w = r->Array_0;
            let x = r2->Array_0;
            assert forall|i: int| 0 <= i < v.len() implies redacted_as(#[trigger] v@[i], x@[i]) by {
                assert(decreases_to!(t => t->Array_0));
                assert(decreases_to!(t->Array_0 => t->Array_0@));
                assert(decreases_to!(t->Array_0@ => t->Array_0@[i]));
                assert(redacted_as(v@[i], w@[i]));
                assert(redacted_as(w@[i], x@[i]));
                law_redaction_is_idempotent(v@[i], w@[i], x@[i]);
            }
        },
        JsonTree::Object(f) => {
            assert(decreases_to!(t => t->Object_0));
            assert(decreases_to!(t->Object_0 => t->Object_0@));
            lemma_fields_redacted_twice(f@, r->Object_0@, r2->Object_0@);
        },
        _ => {},
    }
}

proof fn lemma_fields_redacted_twice(f: Seq<JsonField>, g: Seq<JsonField>, h: Seq<JsonField>)
    requires
        fields_redacted_as(f, g),
        fields_redacted_as(g, h),
    ensures
        fields_redacted_as(f, h),
    decreases f, 1int,
{
    if f.len() > 0 {
        if sensitive_key(f.last().key@) {
            assert(decreases_to!(f => f.drop_last()));
            lemma_fields_redacted_twice(f.drop_last(), g, h);
        } else {
            assert(g.len() > 0 && g.last().key@ == f.last().key@);
            assert(!sensitive_key(g.last().key@));
            assert(decreases_to!(f => f[f.len() - 1]));
            assert(decreases_to!(f[f.len() - 1] => f[f.len() - 1].value));
            law_redaction_is_idempotent(f.last().value, g.last().value, h.last().value);
            assert(decreases_to!(f => f.drop_last()));
            lemma_fields_redacted_twice(f.drop_last(), g.drop_last(), h.drop_last());
        }
    } else {
        assert(g.len() == 0);
    }
}

/// Row ids in strictly increasing order, as a history query reads them.
pub open spec fn sorted_ids(ids: Seq<i64>) -> bool {
    forall|a: int, b: int| 0 <= a < b < ids.len() ==> ids[a] < ids[b]
}

/// A row in the page window after `last`, up to the snapshot cutoff.
pub open spec fn in_window(x: i64, last: i64, cutoff: i64) -> bool {
    last < x && x <= cutoff
}

/// A page of the window: rows of the window in order, with no row of the window skipped
/// before the page's last row.
pub open spec fn gap_free(ids: Seq<i64>, last: i64, cutoff: i64, page: Seq<i64>) -> bool {
    &&& sorted_ids(page)
    &&& forall|i: int| 0 <= i < page.len() ==> in_window(#[trigger] page[i], last, cutoff) && ids.contains(page[i])
    &&& forall|j: int|
        0 <= j < ids.len() && in_window(#[trigger] ids[j], last, cutoff) && page.len() > 0 && ids[j]
            <= page.last() ==> page.contains(ids[j])
}

/// The rows of a history page: the first `limit` rows of the window, and whether more
/// remain.
pub fn history_page(ids: &Vec<i64>, last: i64, cutoff: i64, limit: usize) -> (r: (Vec<i64>, bool))
    requires
        sorted_ids(ids@),
        limit >= 1,
    ensures
        gap_free(ids@, last, cutoff, r.0@),
        r.0.len() <= limit,
        !r.1 ==> forall|j: int| 0 <= j < ids.len() && in_window(#[trigger] ids@[j], last, cutoff)
            ==> r.0@.contains(ids@[j]),
        r.1 ==> r.0.len() == limit && exists|j: int|
            0 <= j < ids.len() && in_window(#[trigger] ids@[j], last, cutoff) && ids@[j] > r.0@.last(),
{
    let mut page: Vec<i64> = Vec::new();
    let mut i: usize = 0;
    while i < ids.len()
        invariant
            i <= ids.len(),
            limit >= 1,
            sorted_ids(ids@),
            page.len() <= limit,
            sorted_ids(page@),
            forall|k: int| 0 <= k < page.len() ==> in_window(#[trigger] page@[k], last, cutoff)
                && ids@.contains(page@[k]),
            page.len() > 0 ==> exists|k: int| 0 <= k < i && ids@[k] == page@.last(),
            forall|j: int| 0 <= j < i && in_window(#[trigger] ids@[j], last, cutoff) ==> page@.contains(ids@[j]),
        decreases ids.len() - i,
    {
        let x = ids[i];
        if last < x && x <= cutoff {
            if page.len() == limit {
                proof {
                    assert(in_window(ids@[i as int], last, cutoff));
                    let k = choose|k: int| 0 <= k < i && ids@[k] == page@.last();
                    assert(ids@[k] < ids@[i as int]);
                    assert forall|j: int| 0 <= j < ids.len() && in_window(#[trigger] ids@[j], last, cutoff)
                        && page.len() > 0 && ids@[j] <= page@.last() implies page@.contains(ids@[j]) by {
                        if j >= i {
                            if j > i {
                                assert(ids@[i as int] < ids@[j]);
                            }
                            assert(false);
                        }
                    }
                }
                return (page, true);
            }
            let ghost before = page@;
            proof {
                if page.len() > 0 {
                    let k = choose|k: int| 0 <= k < i && ids@[k] == page@.last();
                    assert(ids@[k] < ids@[i as int]);
                    assert forall|a: int| 0 <= a < page.len() implies page@[a] <= page@.last() by {
                        if a < page.len() - 1 {
                            assert(page@[a] < page@[page.len() - 1]);
                        }
                    }
                }
            }
            page.push(x);
            proof {
                assert(page@ == before.push(x));
                assert forall|a: int, b: int| 0 <= a < b < page.len() implies page@[a] < page@[b] by {
                    if b == page.len() - 1 && a < before.len() {
                        assert(before[a] <= before.last());
                    }
                }
                assert(ids@.contains(x)) by {
                    assert(ids@[i as int] == x);
                }
                assert forall|j: int| 0 <= j < i + 1 && in_window(#[trigger] ids@[j], last, cutoff) implies page@.contains(ids@[j]) by {
                    if j < i {
                        let m = choose|m: int| 0 <= m < before.len() && before[m] == ids@[j];
                        assert(page@[m] == ids@[j]);
                    } else {
                        assert(page@[page.len() - 1] == ids@[j]);
                    }
                }
            }
        }
        i = i + 1;
    }
    proof {
        assert forall|j: int| 0 <= j < ids.len() && in_window(#[trigger] ids@[j], last, cutoff)
            && page.len() > 0 && ids@[j] <= page@.last() implies page@.contains(ids@[j]) by {
        }
    }
    (page, false)
}

/// A page trimmed to its first rows (to fit the response budget) is still a page.
pub proof fn law_trimmed_page_is_a_page(ids: Seq<i64>, last: i64, cutoff: i64, page: Seq<i64>, n: int)
    requires
        gap_free(ids, last, cutoff, page),
        1 <= n <= page.len(),
    ensures
        gap_free(ids, last, cutoff, page.take(n)),
{
    let t = page.take(n);
    assert forall|i: int| 0 <= i < t.len() implies in_window(#[trigger] t[i], last, cutoff) && ids.contains(t[i]) by {
        assert(t[i] == page[i]);
    }
    assert forall|j: int|
        0 <= j < ids.len() && in_window(#[trigger] ids[j], last, cutoff) && t.len() > 0 && ids[j]
            <= t.last() implies t.contains(ids[j]) by {
        assert(t.last() == page[n - 1]);
        if n < page.len() {
            assert(page[n - 1] < page.last());
        }
        let m = choose|m: int| 0 <= m < page.len() && page[m] == ids[j];
        if m >= n {
            if m > n - 1 {
                assert(page[n - 1] < page[m]);
            }
        }
        assert(t[m] == ids[j]);
    }
}

/// Consecutive history pages never repeat a row and leave none out: every row of the
/// second page comes after every row of the first, and every row of the window up to the
/// second page's last row is on one of them.
pub proof fn law_consecutive_pages_are_disjoint_and_cover(
    ids: Seq<i64>,
    last: i64,
    cutoff: i64,
    first: Seq<i64>,
    second: Seq<i64>,
)
    requires
        gap_free(ids, last, cutoff, first),
        first.len() > 0,
        gap_free(ids, first.last(), cutoff, second),
    ensures
        forall|a: int, b: int| 0 <= a < first.len() && 0 <= b < second.len() ==> first[a] < second[b],
        forall|j: int|
            0 <= j < ids.len() && in_window(#[trigger] ids[j], last, cutoff) && second.len() > 0
                && ids[j] <= second.last() ==> first.contains(ids[j]) || second.contains(ids[j]),
{
    assert forall|a: int, b: int| 0 <= a < first.len() && 0 <= b < second.len() implies first[a] < second[b] by {
        if a < first.len() - 1 {
            assert(first[a] < first[first.len() - 1]);
        }
        assert(in_window(second[b], first.last(), cutoff));
    }
    assert forall|j: int|
        0 <= j < ids.len() && in_window(#[trigger] ids[j], last, cutoff) && second.len() > 0
            && ids[j] <= second.last() implies first.contains(ids[j]) || second.contains(ids[j]) by {
        if ids[j] > first.last() {
            assert(in_window(ids[j], first.last(), cutoff));
        }
    }
}

/// and decodes to exactly those bytes.
pub proof fn law_cursor_bytes_read_back(data: Seq<u8>)
    requires
        0 < data.len() <= 1024,
    ensures
        cursor_bytes_result(hex_text(data)) == Ok::<Seq<u8>, ErrorView>(data),
{
    crate::crypto::lemma_hex_text_shape(data);
    crate::crypto::lemma_hex_text_ascii(data);
    crate::crypto::law_hex_decoding_undoes_encoding(data);
}

} // verus!
