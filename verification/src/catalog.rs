//! The closed MCP tool catalog, and how a tool call becomes a REST request. A tool request
//! never chooses its URL, HTTP method or headers: the named catalog entry fixes the method
//! and the route, whose path identities, idempotency key, body and typed query values come
//! from the arguments.
use vstd::prelude::*;

use crate::auth::{valid_id, valid_id_bytes};
use crate::error::{bad_request_view, forbidden_view, AppError, ErrorView};
use crate::history::{JsonField, JsonTree};
use crate::text::{
    chars_of, find_chars, find_from, find_seq, lemma_find_from, slice_chars, split_chars,
    split_seq, str_eq, string_from_chars, utf8, utf8_len, views,
};

verus! {

/// The field names a route template holds as `{name}` segments, in order.
pub open spec fn template_fields(segments: Seq<Seq<char>>) -> Seq<Seq<char>>
    decreases segments.len(),
{
    if segments.len() == 0 {
        seq![]
    } else {
        let prev = template_fields(segments.drop_last());
        let s = segments.last();
        if s.len() >= 2 && s[0] == '{' && s.last() == '}' {
            prev.push(s.subrange(1, s.len() - 1))
        } else {
            prev
        }
    }
}

pub open spec fn path_fields_spec(path: Seq<char>) -> Seq<Seq<char>> {
    template_fields(split_seq(path, '/'))
}

pub fn path_fields(path: &str) -> (r: Vec<Vec<char>>)
    ensures
        views(r@) == path_fields_spec(path@),
{
    let segments = split_chars(&chars_of(path), '/');
    let mut fields: Vec<Vec<char>> = Vec::new();
    let mut i: usize = 0;
    while i < segments.len()
        invariant
            i <= segments.len(),
            views(fields@) == template_fields(views(segments@).subrange(0, i as int)),
        decreases segments.len() - i,
    {
        assert(views(segments@).subrange(0, i + 1).drop_last() =~= views(segments@).subrange(0, i as int));
        assert(views(segments@).subrange(0, i + 1).last() == segments@[i as int]@);
        let s = &segments[i];
        if s.len() >= 2 && s[0] == '{' && s[s.len() - 1] == '}' {
            let inner = slice_chars(s, 1, s.len() - 1);
            let ghost before = fields@;
            fields.push(inner);
            assert(views(fields@) =~= views(before).push(s@.subrange(1, s@.len() - 1)));
        }
        i = i + 1;
    }
    assert(views(segments@).subrange(0, segments@.len() as int) =~= views(segments@));
    fields
}

/// `str::replace`: every non-overlapping occurrence of `pat`, left to right, replaced.
pub open spec fn replace_all(s: Seq<char>, pat: Seq<char>, with: Seq<char>) -> Seq<char>
    decreases s.len(),
{
    if pat.len() == 0 {
        s
    } else {
        match find_seq(s, pat) {
            None => s,
            Some(i) => {
                proof {
                    lemma_find_from(s, pat, 0);
                }
                s.subrange(0, i) + with + replace_all(s.subrange(i + pat.len(), s.len() as int), pat, with)
            },
        }
    }
}

proof fn lemma_find_shift(s: Seq<char>, p: Seq<char>, pos: int, i: int)
    requires
        0 <= pos <= s.len(),
        0 <= i,
    ensures
        find_from(s, p, pos + i) == match find_from(s.subrange(pos, s.len() as int), p, i) {
            Some(k) => Some(k + pos),
            None => None::<int>,
        },
    decreases s.len() + 1 - (pos + i),
{
    let t = s.subrange(pos, s.len() as int);
    if i + p.len() <= t.len() {
        assert(t.subrange(i, i + p.len()) =~= s.subrange(pos + i, pos + i + p.len()));
        if t.subrange(i, i + p.len()) != p {
            lemma_find_shift(s, p, pos, i + 1);
        }
    }
}

fn replace_chars(s: &Vec<char>, pat: &Vec<char>, with: &Vec<char>) -> (r: Vec<char>)
    requires
        pat.len() > 0,
    ensures
        r@ == replace_all(s@, pat@, with@),
{
    let mut out: Vec<char> = Vec::new();
    let mut pos: usize = 0;
    let n = s.len();
    assert(s@.subrange(0, n as int) =~= s@);
    loop
        invariant
            n == s@.len(),
            pos <= n,
            pat@.len() > 0,
            out@ + replace_all(s@.subrange(pos as int, n as int), pat@, with@) == replace_all(
                s@,
                pat@,
                with@,
            ),
        decreases n - pos,
    {
        let ghost rest = s@.subrange(pos as int, n as int);
        proof {
            lemma_find_shift(s@, pat@, pos as int, 0);
        }
        match find_chars(s, pat, pos) {
            None => {
                let tail = slice_chars(s, pos, n);
                crate::text::append_chars(&mut out, &tail);
                return out;
            },
            Some(i) => {
                proof {
                    lemma_find_from(s@, pat@, pos as int);
                    assert(rest.subrange(0, i - pos) =~= s@.subrange(pos as int, i as int));
                    assert(rest.subrange(i - pos + pat@.len(), rest.len() as int) =~= s@.subrange(
                        i + pat@.len(),
                        n as int,
                    ));
                }
                let piece = slice_chars(s, pos, i);
                let ghost before = out@;
                crate::text::append_chars(&mut out, &piece);
                crate::text::append_chars(&mut out, with);
                assert(out@ + replace_all(s@.subrange(i + pat@.len(), n as int), pat@, with@) =~= before
                    + replace_all(rest, pat@, with@));
                pos = i + pat.len();
            },
        }
    }
}

/// A path identity: a valid id that is not `.` or `..`.
pub open spec fn path_identity_ok(v: Seq<char>) -> bool {
    valid_id_bytes(utf8(v)) && v != seq!['.'] && v != seq!['.', '.']
}

fn path_identity(v: &str) -> (r: bool)
    ensures
        r == path_identity_ok(v@),
{
    let c = chars_of(v);
    let dot = c.len() == 1 && c[0] == '.';
    let dot_dot = c.len() == 2 && c[0] == '.' && c[1] == '.';
    assert(dot == (v@ == seq!['.'])) by {
        if c@.len() == 1 && c@[0] == '.' {
            assert(v@ =~= seq!['.']);
        }
    }
    assert(dot_dot == (v@ == seq!['.', '.'])) by {
        if c@.len() == 2 && c@[0] == '.' && c@[1] == '.' {
            assert(v@ =~= seq!['.', '.']);
        }
    }
    valid_id(v) && !dot && !dot_dot
}

pub open spec fn header_message() -> Seq<char> {
    "Configure exactly one stable X-Coordinator-Session and X-Coordinator-Session-Proof header in the client."@
}

/// The single text value of a header, given each of its values as text when it is
/// visible ASCII.
pub open spec fn header_value_spec(values: Seq<Option<String>>) -> Result<Seq<char>, ErrorView> {
    if values.len() == 1 && values[0] is Some {
        Ok(values[0]->Some_0@)
    } else {
        Err(bad_request_view(header_message()))
    }
}

pub fn header_value(values: &Vec<Option<String>>) -> (r: Result<String, AppError>)
    ensures
        match header_value_spec(values@) {
            Ok(v) => (r matches Ok(s) && s@ == v),
            Err(e) => (r matches Err(x) && x@ == e),
        },
{
    if values.len() == 1 {
        if let Some(v) = &values[0] {
            return Ok(v.as_str().to_owned());
        }
    }
    Err(
        AppError::bad_request(
            "Configure exactly one stable X-Coordinator-Session and X-Coordinator-Session-Proof header in the client.",
        ),
    )
}

/// A tool argument for one path field: absent, not a string, or a string.
pub enum PathArgument {
    Absent,
    NotText,
    Text(String),
}

pub open spec fn identity_message() -> Seq<char> {
    "Provide every path identity using letters, digits, underscore, dash, or dot; path traversal is forbidden."@
}

/// The text a path field takes: its argument, or for an absent `session` field the
/// configured session header.
pub open spec fn field_value(
    field: Seq<char>,
    arg: PathArgument,
    session_values: Seq<Option<String>>,
) -> Result<Option<Seq<char>>, ErrorView> {
    if field == "session"@ && (arg is Absent) {
        match header_value_spec(session_values) {
            Err(e) => Err(e),
            Ok(h) => Ok(Some(h)),
        }
    } else {
        match arg {
            PathArgument::Text(s) => Ok(Some(s@)),
            _ => Ok(None),
        }
    }
}

/// One field filled into the route so far, or why it cannot be.
pub open spec fn fill_one(
    p: Seq<char>,
    field: Seq<char>,
    arg: PathArgument,
    session_values: Seq<Option<String>>,
) -> Result<Seq<char>, ErrorView> {
    let supplied = field_value(field, arg, session_values);
    let is_session = field == "session"@;
    if supplied is Err {
        Err(supplied->Err_0)
    } else if !((supplied->Ok_0) is Some && path_identity_ok((supplied->Ok_0)->Some_0)) {
        Err(bad_request_view(identity_message()))
    } else if is_session && (header_value_spec(session_values) is Err) {
        Err(header_value_spec(session_values)->Err_0)
    } else if is_session && (header_value_spec(session_values)->Ok_0 != (supplied->Ok_0)->Some_0) {
        Err(forbidden_view("The tool's session must match the configured harness session."@))
    } else {
        Ok(replace_all(p, seq!['{'] + field + seq!['}'], (supplied->Ok_0)->Some_0))
    }
}

/// The route with its fields filled in from `fields[..n]`, or the first error. A `session`
/// field defaults to the configured session header and must equal it.
pub open spec fn fill_fields(
    path: Seq<char>,
    fields: Seq<Seq<char>>,
    args: Seq<PathArgument>,
    session_values: Seq<Option<String>>,
    n: nat,
) -> Result<Seq<char>, ErrorView>
    decreases n,
{
    if n == 0 {
        Ok(path)
    } else {
        match fill_fields(path, fields, args, session_values, (n - 1) as nat) {
            Err(e) => Err(e),
            Ok(p) => fill_one(p, fields[n - 1], args[n - 1], session_values),
        }
    }
}

proof fn lemma_fill_error_stable(
    path: Seq<char>,
    fields: Seq<Seq<char>>,
    args: Seq<PathArgument>,
    session_values: Seq<Option<String>>,
    a: nat,
    b: nat,
)
    requires
        a <= b,
        fill_fields(path, fields, args, session_values, a) is Err,
    ensures
        fill_fields(path, fields, args, session_values, b) == fill_fields(path, fields, args, session_values, a),
    decreases b - a,
{
    if a < b {
        lemma_fill_error_stable(path, fields, args, session_values, a, (b - 1) as nat);
    }
}

/// The fixed route with each `{field}` filled from the tool's arguments; `args[k]` is the
/// argument for the `k`-th field of the template.
pub fn fill_path(path: &str, args: &Vec<PathArgument>, session_values: &Vec<Option<String>>) -> (r:
    Result<String, AppError>)
    requires
        args.len() == path_fields_spec(path@).len(),
    ensures
        match fill_fields(
            path@,
            path_fields_spec(path@),
            args@,
            session_values@,
            args.len() as nat,
        ) {
            Ok(p) => (r matches Ok(s) && s@ == p),
            Err(v) => (r matches Err(e) && e@ == v),
        },
{
    let fields = path_fields(path);
    let ghost fs = path_fields_spec(path@);
    let mut current = chars_of(path);
    let mut k: usize = 0;
    while k < fields.len()
        invariant
            k <= fields.len() == args.len(),
            views(fields@) == fs,
            fs == path_fields_spec(path@),
            fill_fields(path@, fs, args@, session_values@, k as nat) == Ok::<Seq<char>, ErrorView>(
                current@,
            ),
        decreases fields.len() - k,
    {
        let field = &fields[k];
        assert(field@ == fs[k as int]);
        let session_field = chars_of("session");
        let is_session = crate::text::chars_eq(field, &session_field);
        let value: String = if is_session && matches!(args[k], PathArgument::Absent) {
            match header_value(session_values) {
                Err(e) => {
                    proof {
                        lemma_fill_error_stable(path@, fs, args@, session_values@, (k + 1) as nat, args.len() as nat);
                    }
                    return Err(e);
                },
                Ok(h) => h,
            }
        } else {
            match &args[k] {
                PathArgument::Text(s) => s.as_str().to_owned(),
                _ => {
                    proof {
                        lemma_fill_error_stable(path@, fs, args@, session_values@, (k + 1) as nat, args.len() as nat);
                    }
                    return Err(
                        AppError::bad_request(
                            "Provide every path identity using letters, digits, underscore, dash, or dot; path traversal is forbidden.",
                        ),
                    );
                },
            }
        };
        if !path_identity(value.as_str()) {
            proof {
                lemma_fill_error_stable(path@, fs, args@, session_values@, (k + 1) as nat, args.len() as nat);
            }
            return Err(
                AppError::bad_request(
                    "Provide every path identity using letters, digits, underscore, dash, or dot; path traversal is forbidden.",
                ),
            );
        }
        if is_session {
            match header_value(session_values) {
                Err(e) => {
                    proof {
                        lemma_fill_error_stable(path@, fs, args@, session_values@, (k + 1) as nat, args.len() as nat);
                    }
                    return Err(e);
                },
                Ok(h) => {
                    if !str_eq(h.as_str(), value.as_str()) {
                        proof {
                            lemma_fill_error_stable(path@, fs, args@, session_values@, (k + 1) as nat, args.len() as nat);
                        }
                        return Err(
                            AppError::forbidden(
                                "The tool's session must match the configured harness session.",
                            ),
                        );
                    }
                },
            }
        }
        let mut pattern: Vec<char> = Vec::new();
        pattern.push('{');
        crate::text::append_chars(&mut pattern, field);
        pattern.push('}');
        assert(pattern@ =~= seq!['{'] + field@ + seq!['}']);
        current = replace_chars(&current, &pattern, &chars_of(value.as_str()));
        k = k + 1;
    }
    Ok(string_from_chars(&current))
}

pub open spec fn key_char(c: char) -> bool {
    crate::text::is_ascii_alnum(c) || c == '-' || c == '_' || c == '.' || c == ':'
}

/// An idempotency key: 16 to 128 bytes of letters, digits, `-`, `_`, `.` and `:`.
pub open spec fn idempotency_key_ok(v: Seq<char>) -> bool {
    16 <= utf8_len(v) <= 128 && forall|i: int| 0 <= i < v.len() ==> key_char(#[trigger] v[i])
}

pub fn idempotency_key(value: Option<&str>) -> (r: Result<String, AppError>)
    ensures
        match value {
            Some(v) => if idempotency_key_ok(v@) {
                (r matches Ok(s) && s@ == v@)
            } else {
                (r matches Err(e) && e@ == bad_request_view(
                    "Persist and supply a 16–128 character idempotency_key using letters, digits, dash, underscore, dot, or colon."@,
                ))
            },
            None => (r matches Err(e) && e@ == bad_request_view(
                "Persist and supply a 16–128 character idempotency_key using letters, digits, dash, underscore, dot, or colon."@,
            )),
        },
{
    let v = match value {
        Some(v) => v,
        None => {
            return Err(
                AppError::bad_request(
                    "Persist and supply a 16–128 character idempotency_key using letters, digits, dash, underscore, dot, or colon.",
                ),
            );
        },
    };
    let n = crate::text::byte_len(v);
    let c = chars_of(v);
    let mut ok = 16 <= n && n <= 128;
    let mut i: usize = 0;
    while ok && i < c.len()
        invariant
            i <= c.len(),
            c@ == v@,
            ok ==> 16 <= utf8_len(v@) <= 128,
            ok ==> forall|k: int| 0 <= k < i ==> key_char(#[trigger] c@[k]),
            !ok ==> !idempotency_key_ok(v@),
        decreases c.len() - i,
    {
        let ch = c[i];
        if !(('0' <= ch && ch <= '9') || ('a' <= ch && ch <= 'z') || ('A' <= ch && ch <= 'Z')
            || ch == '-' || ch == '_' || ch == '.' || ch == ':') {
            assert(!key_char(v@[i as int]));
            ok = false;
        }
        i = i + 1;
    }
    if !ok {
        return Err(
            AppError::bad_request(
                "Persist and supply a 16–128 character idempotency_key using letters, digits, dash, underscore, dot, or colon.",
            ),
        );
    }
    Ok(v.to_owned())
}

/// A JSON query argument, by its type.
pub enum QueryValue {
    Text(String),
    Integer(i64),
    Boolean(bool),
    Other,
}

/// The query text of an argument for a field of the given schema type: strings of at most
/// 8192 bytes without NUL, integers in decimal, booleans as `true`/`false`.
pub open spec fn query_text(kind: Option<Seq<char>>, v: QueryValue) -> Option<Seq<char>> {
    if kind == Some("string"@) {
        match v {
            QueryValue::Text(s) => if utf8_len(s@) <= 8192 && !s@.contains('\0') {
                Some(s@)
            } else {
                None
            },
            _ => None,
        }
    } else if kind == Some("integer"@) {
        match v {
            QueryValue::Integer(n) => Some(crate::history::signed_decimal(n as int)),
            _ => None,
        }
    } else if kind == Some("boolean"@) {
        match v {
            QueryValue::Boolean(b) => Some(if b {
                "true"@
            } else {
                "false"@
            }),
            _ => None,
        }
    } else {
        None
    }
}

pub fn query_value(kind: Option<&str>, value: &QueryValue) -> (r: Result<String, AppError>)
    ensures
        match query_text(
            match kind {
                Some(k) => Some(k@),
                None => None,
            },
            *value,
        ) {
            Some(t) => (r matches Ok(s) && s@ == t),
            None => (r matches Err(e) && e@ == bad_request_view(
                "Query field has an invalid type or exceeds the input bound."@,
            )),
        },
{
    let k = match kind {
        Some(k) => k,
        None => "",
    };
    proof {
        reveal_strlit("");
        reveal_strlit("string");
        reveal_strlit("integer");
        reveal_strlit("boolean");
    }
    let text: Option<String> = if kind.is_some() && str_eq(k, "string") {
        match value {
            QueryValue::Text(s) => if crate::text::byte_len(s.as_str()) <= 8192
                && !crate::text::contains_char(s.as_str(), '\0') {
                Some(s.as_str().to_owned())
            } else {
                None
            },
            _ => None,
        }
    } else if kind.is_some() && str_eq(k, "integer") {
        match value {
            QueryValue::Integer(n) => Some(string_from_chars(&crate::history::i64_text(*n))),
            _ => None,
        }
    } else if kind.is_some() && str_eq(k, "boolean") {
        match value {
            QueryValue::Boolean(b) => Some(if *b {
                "true".to_owned()
            } else {
                "false".to_owned()
            }),
            _ => None,
        }
    } else {
        None
    };
    match text {
        Some(t) => Ok(t),
        None => Err(
            AppError::bad_request("Query field has an invalid type or exceeds the input bound."),
        ),
    }
}

/// A session registration through MCP must name the configured session, which must be a
/// single safe path segment.
pub open spec fn registration_refusal(session: Seq<char>, body_session_id: Option<Seq<char>>) -> Option<ErrorView> {
    if !path_identity_ok(session) {
        Some(bad_request_view("Configure a session ID usable as a single safe path segment."@))
    } else if body_session_id != Some(session) {
        Some(
            bad_request_view(
                "body.session_id must match the session ID persisted in client configuration."@,
            ),
        )
    } else {
        None
    }
}

pub fn check_registration(session: &str, body_session_id: Option<&str>) -> (r: Result<(), AppError>)
    ensures
        match registration_refusal(
            session@,
            match body_session_id {
                Some(s) => Some(s@),
                None => None,
            },
        ) {
            None => r is Ok,
            Some(v) => (r matches Err(e) && e@ == v),
        },
{
    if !path_identity(session) {
        return Err(AppError::bad_request("Configure a session ID usable as a single safe path segment."));
    }
    let same = match body_session_id {
        Some(s) => str_eq(s, session),
        None => false,
    };
    if !same {
        return Err(
            AppError::bad_request(
                "body.session_id must match the session ID persisted in client configuration.",
            ),
        );
    }
    Ok(())
}

/// The HTTP method a catalog entry sends.
#[derive(Clone, Copy, Debug, PartialEq, Eq, Structural)]
pub enum HttpMethod {
    Get,
    Post,
    Patch,
}

/// The JSON type a query field takes.
#[derive(Clone, Copy, Debug, PartialEq, Eq, Structural)]
pub enum QueryKind {
    Text,
    Integer,
    Boolean,
}

/// A tool of the closed catalog: its name, the method and route template it always sends,
/// the query fields it accepts with their types, and whether it takes a typed body (with an
/// idempotency key).
pub struct Operation {
    pub name: String,
    pub method: HttpMethod,
    pub path: String,
    pub query: Vec<(String, QueryKind)>,
    pub has_body: bool,
}

pub struct OperationView {
    pub name: Seq<char>,
    pub method: HttpMethod,
    pub path: Seq<char>,
    pub query: Seq<(Seq<char>, QueryKind)>,
    pub has_body: bool,
}

pub open spec fn query_rules_view(q: Seq<(String, QueryKind)>) -> Seq<(Seq<char>, QueryKind)> {
    q.map_values(|r: (String, QueryKind)| (r.0@, r.1))
}

impl View for Operation {
    type V = OperationView;

    open spec fn view(&self) -> OperationView {
        OperationView {
            name: self.name@,
            method: self.method,
            path: self.path@,
            query: query_rules_view(self.query@),
            has_body: self.has_body,
        }
    }
}

pub open spec fn ops_view(v: Seq<Operation>) -> Seq<OperationView> {
    v.map_values(|o: Operation| o@)
}

/// The four tools that edit a record in place.
pub open spec fn edit_tool(name: Seq<char>) -> bool {
    name == "coordinator_task_edit"@ || name == "coordinator_knowledge_edit"@ || name
        == "coordinator_policy_update"@ || name == "coordinator_objective_children"@
}

/// What every catalog entry keeps: a body exactly when it changes something (not `GET`),
/// and `PATCH` only for the edit tools.
pub open spec fn entry_ok(o: OperationView) -> bool {
    &&& o.has_body <==> o.method != HttpMethod::Get
    &&& o.method == HttpMethod::Patch ==> edit_tool(o.name)
}

/// No two entries share a name.
pub open spec fn names_distinct(ops: Seq<OperationView>) -> bool {
    forall|i: int, j: int| 0 <= i < j < ops.len() ==> #[trigger] ops[i].name != #[trigger] ops[j].name
}

fn rule(name: &str, kind: QueryKind) -> (r: (String, QueryKind))
    ensures
        r.0@ == name@,
        r.1 == kind,
{
    (name.to_owned(), kind)
}

fn none_query() -> (q: Vec<(String, QueryKind)>) {
    Vec::new()
}

/// A list page: a text cursor and a limit.
fn page_query() -> (q: Vec<(String, QueryKind)>) {
    let mut q = Vec::new();
    q.push(rule("cursor", QueryKind::Text));
    q.push(rule("limit", QueryKind::Integer));
    q
}

/// A page over sequence numbers: an integer cursor and a limit.
fn sequence_query() -> (q: Vec<(String, QueryKind)>) {
    let mut q = Vec::new();
    q.push(rule("cursor", QueryKind::Integer));
    q.push(rule("limit", QueryKind::Integer));
    q
}

fn knowledge_query() -> (q: Vec<(String, QueryKind)>) {
    let mut q = page_query();
    q.push(rule("kind", QueryKind::Text));
    q.push(rule("status", QueryKind::Text));
    q.push(rule("tag", QueryKind::Text));
    q.push(rule("include_shared", QueryKind::Boolean));
    q
}

fn decision_query() -> (q: Vec<(String, QueryKind)>) {
    let mut q = page_query();
    q.push(rule("status", QueryKind::Text));
    q
}

fn history_query() -> (q: Vec<(String, QueryKind)>) {
    let mut q = page_query();
    q.push(rule("kind", QueryKind::Text));
    q
}

fn context_query() -> (q: Vec<(String, QueryKind)>) {
    let mut q = Vec::new();
    q.push(rule("q", QueryKind::Text));
    q.push(rule("limit", QueryKind::Integer));
    q.push(rule("budget", QueryKind::Integer));
    q.push(rule("include_shared", QueryKind::Boolean));
    q.push(rule("task_id", QueryKind::Text));
    q.push(rule("component", QueryKind::Text));
    q.push(rule("environment", QueryKind::Text));
    q.push(rule("version", QueryKind::Text));
    q
}

fn add_operation(
    ops: &mut Vec<Operation>,
    Ghost(seen): Ghost<Set<Seq<char>>>,
    name: &str,
    method: HttpMethod,
    path: &str,
    query: Vec<(String, QueryKind)>,
)
    requires
        forall|i: int| 0 <= i < old(ops).len() ==> entry_ok(#[trigger] old(ops)@[i]@),
        method == HttpMethod::Patch ==> edit_tool(name@),
        names_distinct(ops_view(old(ops)@)),
        forall|i: int| 0 <= i < old(ops).len() ==> seen.contains(#[trigger] old(ops)@[i]@.name),
        !seen.contains(name@),
    ensures
        final(ops)@.len() == old(ops)@.len() + 1,
        forall|i: int| 0 <= i < old(ops).len() ==> #[trigger] final(ops)@[i] == old(ops)@[i],
        final(ops)@.last()@.name == name@,
        final(ops)@.last()@.method == method,
        final(ops)@.last()@.path == path@,
        final(ops)@.last()@.query == query_rules_view(query@),
        forall|i: int| 0 <= i < final(ops).len() ==> entry_ok(#[trigger] final(ops)@[i]@),
        names_distinct(ops_view(final(ops)@)),
        forall|i: int|
            0 <= i < final(ops).len() ==> seen.insert(name@).contains(
                #[trigger] final(ops)@[i]@.name,
            ),
{
    let has_body = match method {
        HttpMethod::Get => false,
        _ => true,
    };
    ops.push(Operation { name: name.to_owned(), method, path: path.to_owned(), query, has_body });
    proof {
        assert(ops_view(ops@) =~= ops_view(old(ops)@).push(ops@.last()@));
    }
}

/// The closed tool catalog, in the order tools are listed.
pub fn build_catalog() -> (ops: Vec<Operation>)
    ensures
        ops@.len() == 56,
        forall|i: int| 0 <= i < ops.len() ==> entry_ok(#[trigger] ops@[i]@),
        ops@[9]@.name == "coordinator_task_edit"@ && ops@[9]@.method == HttpMethod::Patch,
        ops@[35]@.name == "coordinator_knowledge_edit"@ && ops@[35]@.method == HttpMethod::Patch,
        ops@[38]@.name == "coordinator_policy_update"@ && ops@[38]@.method == HttpMethod::Patch,
        ops@[55]@.name == "coordinator_objective_children"@ && ops@[55]@.method
            == HttpMethod::Patch,
        names_distinct(ops_view(ops@)),
{
    let mut ops: Vec<Operation> = Vec::new();
    let ghost mut seen: Set<Seq<char>> = Set::empty();
    proof {
        reveal_strlit("coordinator_projects_list");
        reveal_strlit("coordinator_orientation");
        reveal_strlit("coordinator_session_register");
        reveal_strlit("coordinator_session_get");
        reveal_strlit("coordinator_session_close");
        reveal_strlit("coordinator_instructions_ack");
        reveal_strlit("coordinator_tasks_list");
        reveal_strlit("coordinator_task_get");
        reveal_strlit("coordinator_task_create");
        reveal_strlit("coordinator_task_edit");
        reveal_strlit("coordinator_task_unblock");
        reveal_strlit("coordinator_claim");
        reveal_strlit("coordinator_attempt_get");
        reveal_strlit("coordinator_attempt_renew");
        reveal_strlit("coordinator_checkpoint");
        reveal_strlit("coordinator_attempt_release");
        reveal_strlit("coordinator_checkout_register");
        reveal_strlit("coordinator_recovery_resolve");
        reveal_strlit("coordinator_events_list");
        reveal_strlit("coordinator_task_history");
        reveal_strlit("coordinator_workflow_policy");
        reveal_strlit("coordinator_task_workflow");
        reveal_strlit("coordinator_submit");
        reveal_strlit("coordinator_submission_reopen");
        reveal_strlit("coordinator_activity_get");
        reveal_strlit("coordinator_activity_claim");
        reveal_strlit("coordinator_activity_release");
        reveal_strlit("coordinator_review");
        reveal_strlit("coordinator_publication_intent");
        reveal_strlit("coordinator_integration_result");
        reveal_strlit("coordinator_publication_reconcile");
        reveal_strlit("coordinator_integration_finalize");
        reveal_strlit("coordinator_knowledge_list");
        reveal_strlit("coordinator_knowledge_get");
        reveal_strlit("coordinator_knowledge_create");
        reveal_strlit("coordinator_knowledge_edit");
        reveal_strlit("coordinator_knowledge_feedback");
        reveal_strlit("coordinator_context");
        reveal_strlit("coordinator_policy_update");
        reveal_strlit("coordinator_policy_history");
        reveal_strlit("coordinator_decisions_list");
        reveal_strlit("coordinator_decision_get");
        reveal_strlit("coordinator_decision_create");
        reveal_strlit("coordinator_decision_answer");
        reveal_strlit("coordinator_decision_reopen");
        reveal_strlit("coordinator_artifacts_list");
        reveal_strlit("coordinator_artifact_get");
        reveal_strlit("coordinator_artifact_link");
        reveal_strlit("coordinator_jobs_list");
        reveal_strlit("coordinator_job_get");
        reveal_strlit("coordinator_resources_list");
        reveal_strlit("coordinator_reservations_list");
        reveal_strlit("coordinator_objectives_list");
        reveal_strlit("coordinator_objective_get");
        reveal_strlit("coordinator_objective_create");
        reveal_strlit("coordinator_objective_children");
        assert("coordinator_projects_list"@.len() == 25);
        assert("coordinator_projects_list"@[17] == 'c');
        assert("coordinator_orientation"@.len() == 23);
        assert("coordinator_orientation"@[12] == 'o');
        assert("coordinator_session_register"@.len() == 28);
        assert("coordinator_session_register"@[12] == 's');
        assert("coordinator_session_get"@.len() == 23);
        assert("coordinator_session_get"@[12] == 's');
        assert("coordinator_session_close"@.len() == 25);
        assert("coordinator_session_close"@[17] == 'o');
        assert("coordinator_instructions_ack"@.len() == 28);
        assert("coordinator_instructions_ack"@[12] == 'i');
        assert("coordinator_tasks_list"@.len() == 22);
        assert("coordinator_tasks_list"@[12] == 't');
        assert("coordinator_task_get"@.len() == 20);
        assert("coordinator_task_create"@.len() == 23);
        assert("coordinator_task_create"@[12] == 't');
        assert("coordinator_task_edit"@.len() == 21);
        assert("coordinator_task_edit"@[12] == 't');
        assert("coordinator_task_unblock"@.len() == 24);
        assert("coordinator_task_unblock"@[18] == 'n');
        assert("coordinator_claim"@.len() == 17);
        assert("coordinator_attempt_get"@.len() == 23);
        assert("coordinator_attempt_get"@[12] == 'a');
        assert("coordinator_attempt_renew"@.len() == 25);
        assert("coordinator_attempt_renew"@[17] == 'p');
        assert("coordinator_checkpoint"@.len() == 22);
        assert("coordinator_checkpoint"@[12] == 'c');
        assert("coordinator_attempt_release"@.len() == 27);
        assert("coordinator_attempt_release"@[21] == 'e');
        assert("coordinator_checkout_register"@.len() == 29);
        assert("coordinator_checkout_register"@[12] == 'c');
        assert("coordinator_recovery_resolve"@.len() == 28);
        assert("coordinator_recovery_resolve"@[12] == 'r');
        assert("coordinator_events_list"@.len() == 23);
        assert("coordinator_events_list"@[12] == 'e');
        assert("coordinator_task_history"@.len() == 24);
        assert("coordinator_task_history"@[18] == 'i');
        assert("coordinator_workflow_policy"@.len() == 27);
        assert("coordinator_workflow_policy"@[21] == 'p');
        assert("coordinator_task_workflow"@.len() == 25);
        assert("coordinator_task_workflow"@[17] == 'w');
        assert("coordinator_submit"@.len() == 18);
        assert("coordinator_submit"@[12] == 's');
        assert("coordinator_submission_reopen"@.len() == 29);
        assert("coordinator_submission_reopen"@[12] == 's');
        assert("coordinator_activity_get"@.len() == 24);
        assert("coordinator_activity_get"@[18] == 't');
        assert("coordinator_activity_claim"@.len() == 26);
        assert("coordinator_activity_claim"@[16] == 'v');
        assert("coordinator_activity_claim"@[22] == 'l');
        assert("coordinator_activity_release"@.len() == 28);
        assert("coordinator_activity_release"@[12] == 'a');
        assert("coordinator_review"@.len() == 18);
        assert("coordinator_review"@[12] == 'r');
        assert("coordinator_publication_intent"@.len() == 30);
        assert("coordinator_publication_intent"@[12] == 'p');
        assert("coordinator_integration_result"@.len() == 30);
        assert("coordinator_integration_result"@[12] == 'i');
        assert("coordinator_publication_reconcile"@.len() == 33);
        assert("coordinator_integration_finalize"@.len() == 32);
        assert("coordinator_knowledge_list"@.len() == 26);
        assert("coordinator_knowledge_list"@[16] == 'l');
        assert("coordinator_knowledge_list"@[22] == 'l');
        assert("coordinator_knowledge_get"@.len() == 25);
        assert("coordinator_knowledge_get"@[17] == 'e');
        assert("coordinator_knowledge_create"@.len() == 28);
        assert("coordinator_knowledge_create"@[12] == 'k');
        assert("coordinator_knowledge_edit"@.len() == 26);
        assert("coordinator_knowledge_edit"@[16] == 'l');
        assert("coordinator_knowledge_edit"@[22] == 'e');
        assert("coordinator_knowledge_feedback"@.len() == 30);
        assert("coordinator_knowledge_feedback"@[12] == 'k');
        assert("coordinator_context"@.len() == 19);
        assert("coordinator_context"@[12] == 'c');
        assert("coordinator_policy_update"@.len() == 25);
        assert("coordinator_policy_update"@[17] == 'y');
        assert("coordinator_policy_history"@.len() == 26);
        assert("coordinator_policy_history"@[16] == 'c');
        assert("coordinator_policy_history"@[22] == 't');
        assert("coordinator_decisions_list"@.len() == 26);
        assert("coordinator_decisions_list"@[16] == 's');
        assert("coordinator_decisions_list"@[22] == 'l');
        assert("coordinator_decision_get"@.len() == 24);
        assert("coordinator_decision_get"@[18] == 'o');
        assert("coordinator_decision_create"@.len() == 27);
        assert("coordinator_decision_create"@[21] == 'c');
        assert("coordinator_decision_answer"@.len() == 27);
        assert("coordinator_decision_answer"@[21] == 'a');
        assert("coordinator_decision_reopen"@.len() == 27);
        assert("coordinator_decision_reopen"@[21] == 'r');
        assert("coordinator_artifacts_list"@.len() == 26);
        assert("coordinator_artifacts_list"@[16] == 'f');
        assert("coordinator_artifacts_list"@[22] == 'l');
        assert("coordinator_artifact_get"@.len() == 24);
        assert("coordinator_artifact_get"@[18] == 'c');
        assert("coordinator_artifact_link"@.len() == 25);
        assert("coordinator_artifact_link"@[17] == 'a');
        assert("coordinator_jobs_list"@.len() == 21);
        assert("coordinator_jobs_list"@[12] == 'j');
        assert("coordinator_job_get"@.len() == 19);
        assert("coordinator_job_get"@[12] == 'j');
        assert("coordinator_resources_list"@.len() == 26);
        assert("coordinator_resources_list"@[16] == 'u');
        assert("coordinator_resources_list"@[22] == 'l');
        assert("coordinator_reservations_list"@.len() == 29);
        assert("coordinator_reservations_list"@[12] == 'r');
        assert("coordinator_objectives_list"@.len() == 27);
        assert("coordinator_objectives_list"@[21] == 's');
        assert("coordinator_objective_get"@.len() == 25);
        assert("coordinator_objective_get"@[17] == 't');
        assert("coordinator_objective_create"@.len() == 28);
        assert("coordinator_objective_create"@[12] == 'o');
        assert("coordinator_objective_children"@.len() == 30);
        assert("coordinator_objective_children"@[12] == 'o');
    }
    add_operation(&mut ops, Ghost(seen), "coordinator_projects_list", HttpMethod::Get, "/api/v1/projects", page_query());
    proof { seen = seen.insert("coordinator_projects_list"@); }
    add_operation(&mut ops, Ghost(seen), "coordinator_orientation", HttpMethod::Get, "/api/v1/projects/{project}/orientation", none_query());
    proof { seen = seen.insert("coordinator_orientation"@); }
    add_operation(&mut ops, Ghost(seen), "coordinator_session_register", HttpMethod::Post, "/api/v1/sessions", none_query());
    proof { seen = seen.insert("coordinator_session_register"@); }
    add_operation(&mut ops, Ghost(seen), "coordinator_session_get", HttpMethod::Get, "/api/v1/sessions/{session}", none_query());
    proof { seen = seen.insert("coordinator_session_get"@); }
    add_operation(&mut ops, Ghost(seen), "coordinator_session_close", HttpMethod::Post, "/api/v1/sessions/{session}/close", none_query());
    proof { seen = seen.insert("coordinator_session_close"@); }
    add_operation(&mut ops, Ghost(seen), "coordinator_instructions_ack", HttpMethod::Post, "/api/v1/sessions/{session}/instruction-acknowledgments", none_query());
    proof { seen = seen.insert("coordinator_instructions_ack"@); }
    add_operation(&mut ops, Ghost(seen), "coordinator_tasks_list", HttpMethod::Get, "/api/v1/projects/{project}/tasks", page_query());
    proof { seen = seen.insert("coordinator_tasks_list"@); }
    add_operation(&mut ops, Ghost(seen), "coordinator_task_get", HttpMethod::Get, "/api/v1/projects/{project}/tasks/{task}", none_query());
    proof { seen = seen.insert("coordinator_task_get"@); }
    add_operation(&mut ops, Ghost(seen), "coordinator_task_create", HttpMethod::Post, "/api/v1/projects/{project}/tasks", none_query());
    proof { seen = seen.insert("coordinator_task_create"@); }
    add_operation(&mut ops, Ghost(seen), "coordinator_task_edit", HttpMethod::Patch, "/api/v1/projects/{project}/tasks/{task}", none_query());
    proof { seen = seen.insert("coordinator_task_edit"@); }
    add_operation(&mut ops, Ghost(seen), "coordinator_task_unblock", HttpMethod::Post, "/api/v1/projects/{project}/tasks/{task}/unblock", none_query());
    proof { seen = seen.insert("coordinator_task_unblock"@); }
    add_operation(&mut ops, Ghost(seen), "coordinator_claim", HttpMethod::Post, "/api/v1/projects/{project}/claims", none_query());
    proof { seen = seen.insert("coordinator_claim"@); }
    add_operation(&mut ops, Ghost(seen), "coordinator_attempt_get", HttpMethod::Get, "/api/v1/projects/{project}/attempts/{attempt}", none_query());
    proof { seen = seen.insert("coordinator_attempt_get"@); }
    add_operation(&mut ops, Ghost(seen), "coordinator_attempt_renew", HttpMethod::Post, "/api/v1/projects/{project}/attempts/{attempt}/renew", none_query());
    proof { seen = seen.insert("coordinator_attempt_renew"@); }
    add_operation(&mut ops, Ghost(seen), "coordinator_checkpoint", HttpMethod::Post, "/api/v1/projects/{project}/attempts/{attempt}/checkpoints", none_query());
    proof { seen = seen.insert("coordinator_checkpoint"@); }
    add_operation(&mut ops, Ghost(seen), "coordinator_attempt_release", HttpMethod::Post, "/api/v1/projects/{project}/attempts/{attempt}/release", none_query());
    proof { seen = seen.insert("coordinator_attempt_release"@); }
    add_operation(&mut ops, Ghost(seen), "coordinator_checkout_register", HttpMethod::Post, "/api/v1/projects/{project}/attempts/{attempt}/checkout", none_query());
    proof { seen = seen.insert("coordinator_checkout_register"@); }
    add_operation(&mut ops, Ghost(seen), "coordinator_recovery_resolve", HttpMethod::Post, "/api/v1/projects/{project}/attempts/{attempt}/recovery-resolution", none_query());
    proof { seen = seen.insert("coordinator_recovery_resolve"@); }
    add_operation(&mut ops, Ghost(seen), "coordinator_events_list", HttpMethod::Get, "/api/v1/projects/{project}/events", page_query());
    proof { seen = seen.insert("coordinator_events_list"@); }
    add_operation(&mut ops, Ghost(seen), "coordinator_task_history", HttpMethod::Get, "/api/v1/projects/{project}/tasks/{task}/history", history_query());
    proof { seen = seen.insert("coordinator_task_history"@); }
    add_operation(&mut ops, Ghost(seen), "coordinator_workflow_policy", HttpMethod::Get, "/api/v1/projects/{project}/workflow-policy", none_query());
    proof { seen = seen.insert("coordinator_workflow_policy"@); }
    add_operation(&mut ops, Ghost(seen), "coordinator_task_workflow", HttpMethod::Get, "/api/v1/projects/{project}/tasks/{task}/workflow", none_query());
    proof { seen = seen.insert("coordinator_task_workflow"@); }
    add_operation(&mut ops, Ghost(seen), "coordinator_submit", HttpMethod::Post, "/api/v1/projects/{project}/attempts/{attempt}/submissions", none_query());
    proof { seen = seen.insert("coordinator_submit"@); }
    add_operation(&mut ops, Ghost(seen), "coordinator_submission_reopen", HttpMethod::Post, "/api/v1/projects/{project}/tasks/{task}/workflow/reopen", none_query());
    proof { seen = seen.insert("coordinator_submission_reopen"@); }
    add_operation(&mut ops, Ghost(seen), "coordinator_activity_get", HttpMethod::Get, "/api/v1/projects/{project}/workflow-activities/{activity}", none_query());
    proof { seen = seen.insert("coordinator_activity_get"@); }
    add_operation(&mut ops, Ghost(seen), "coordinator_activity_claim", HttpMethod::Post, "/api/v1/projects/{project}/workflow-activities/{activity}/claim", none_query());
    proof { seen = seen.insert("coordinator_activity_claim"@); }
    add_operation(&mut ops, Ghost(seen), "coordinator_activity_release", HttpMethod::Post, "/api/v1/projects/{project}/workflow-activities/{activity}/release", none_query());
    proof { seen = seen.insert("coordinator_activity_release"@); }
    add_operation(&mut ops, Ghost(seen), "coordinator_review", HttpMethod::Post, "/api/v1/projects/{project}/workflow-activities/{activity}/review", none_query());
    proof { seen = seen.insert("coordinator_review"@); }
    add_operation(&mut ops, Ghost(seen), "coordinator_publication_intent", HttpMethod::Post, "/api/v1/projects/{project}/workflow-activities/{activity}/publication-intent", none_query());
    proof { seen = seen.insert("coordinator_publication_intent"@); }
    add_operation(&mut ops, Ghost(seen), "coordinator_integration_result", HttpMethod::Post, "/api/v1/projects/{project}/workflow-activities/{activity}/integration-result", none_query());
    proof { seen = seen.insert("coordinator_integration_result"@); }
    add_operation(&mut ops, Ghost(seen), "coordinator_publication_reconcile", HttpMethod::Post, "/api/v1/projects/{project}/workflow-activities/{activity}/publication-reconciliation", none_query());
    proof { seen = seen.insert("coordinator_publication_reconcile"@); }
    add_operation(&mut ops, Ghost(seen), "coordinator_integration_finalize", HttpMethod::Post, "/api/v1/projects/{project}/workflow-activities/{activity}/finalize", none_query());
    proof { seen = seen.insert("coordinator_integration_finalize"@); }
    add_operation(&mut ops, Ghost(seen), "coordinator_knowledge_list", HttpMethod::Get, "/api/v1/projects/{project}/knowledge", knowledge_query());
    proof { seen = seen.insert("coordinator_knowledge_list"@); }
    add_operation(&mut ops, Ghost(seen), "coordinator_knowledge_get", HttpMethod::Get, "/api/v1/projects/{project}/knowledge/{knowledge}", none_query());
    proof { seen = seen.insert("coordinator_knowledge_get"@); }
    add_operation(&mut ops, Ghost(seen), "coordinator_knowledge_create", HttpMethod::Post, "/api/v1/projects/{project}/knowledge", none_query());
    proof { seen = seen.insert("coordinator_knowledge_create"@); }
    add_operation(&mut ops, Ghost(seen), "coordinator_knowledge_edit", HttpMethod::Patch, "/api/v1/projects/{project}/knowledge/{knowledge}", none_query());
    proof { seen = seen.insert("coordinator_knowledge_edit"@); }
    add_operation(&mut ops, Ghost(seen), "coordinator_knowledge_feedback", HttpMethod::Post, "/api/v1/projects/{project}/knowledge/{knowledge}/feedback", none_query());
    proof { seen = seen.insert("coordinator_knowledge_feedback"@); }
    add_operation(&mut ops, Ghost(seen), "coordinator_context", HttpMethod::Get, "/api/v1/projects/{project}/context", context_query());
    proof { seen = seen.insert("coordinator_context"@); }
    add_operation(&mut ops, Ghost(seen), "coordinator_policy_update", HttpMethod::Patch, "/api/v1/projects/{project}/policy", none_query());
    proof { seen = seen.insert("coordinator_policy_update"@); }
    add_operation(&mut ops, Ghost(seen), "coordinator_policy_history", HttpMethod::Get, "/api/v1/projects/{project}/policy/history", sequence_query());
    proof { seen = seen.insert("coordinator_policy_history"@); }
    add_operation(&mut ops, Ghost(seen), "coordinator_decisions_list", HttpMethod::Get, "/api/v1/projects/{project}/decisions", decision_query());
    proof { seen = seen.insert("coordinator_decisions_list"@); }
    add_operation(&mut ops, Ghost(seen), "coordinator_decision_get", HttpMethod::Get, "/api/v1/projects/{project}/decisions/{decision}", none_query());
    proof { seen = seen.insert("coordinator_decision_get"@); }
    add_operation(&mut ops, Ghost(seen), "coordinator_decision_create", HttpMethod::Post, "/api/v1/projects/{project}/decisions", none_query());
    proof { seen = seen.insert("coordinator_decision_create"@); }
    add_operation(&mut ops, Ghost(seen), "coordinator_decision_answer", HttpMethod::Post, "/api/v1/projects/{project}/decisions/{decision}/answer", none_query());
    proof { seen = seen.insert("coordinator_decision_answer"@); }
    add_operation(&mut ops, Ghost(seen), "coordinator_decision_reopen", HttpMethod::Post, "/api/v1/projects/{project}/decisions/{decision}/reopen", none_query());
    proof { seen = seen.insert("coordinator_decision_reopen"@); }
    add_operation(&mut ops, Ghost(seen), "coordinator_artifacts_list", HttpMethod::Get, "/api/v1/projects/{project}/artifacts", page_query());
    proof { seen = seen.insert("coordinator_artifacts_list"@); }
    add_operation(&mut ops, Ghost(seen), "coordinator_artifact_get", HttpMethod::Get, "/api/v1/projects/{project}/artifacts/{artifact}", none_query());
    proof { seen = seen.insert("coordinator_artifact_get"@); }
    add_operation(&mut ops, Ghost(seen), "coordinator_artifact_link", HttpMethod::Post, "/api/v1/projects/{project}/artifacts", none_query());
    proof { seen = seen.insert("coordinator_artifact_link"@); }
    add_operation(&mut ops, Ghost(seen), "coordinator_jobs_list", HttpMethod::Get, "/api/v1/projects/{project}/jobs", page_query());
    proof { seen = seen.insert("coordinator_jobs_list"@); }
    add_operation(&mut ops, Ghost(seen), "coordinator_job_get", HttpMethod::Get, "/api/v1/projects/{project}/jobs/{job}", none_query());
    proof { seen = seen.insert("coordinator_job_get"@); }
    add_operation(&mut ops, Ghost(seen), "coordinator_resources_list", HttpMethod::Get, "/api/v1/resources", page_query());
    proof { seen = seen.insert("coordinator_resources_list"@); }
    add_operation(&mut ops, Ghost(seen), "coordinator_reservations_list", HttpMethod::Get, "/api/v1/projects/{project}/reservations", page_query());
    proof { seen = seen.insert("coordinator_reservations_list"@); }
    add_operation(&mut ops, Ghost(seen), "coordinator_objectives_list", HttpMethod::Get, "/api/v1/projects/{project}/objectives", page_query());
    proof { seen = seen.insert("coordinator_objectives_list"@); }
    add_operation(&mut ops, Ghost(seen), "coordinator_objective_get", HttpMethod::Get, "/api/v1/projects/{project}/objectives/{objective}", sequence_query());
    proof { seen = seen.insert("coordinator_objective_get"@); }
    add_operation(&mut ops, Ghost(seen), "coordinator_objective_create", HttpMethod::Post, "/api/v1/projects/{project}/objectives", none_query());
    proof { seen = seen.insert("coordinator_objective_create"@); }
    add_operation(&mut ops, Ghost(seen), "coordinator_objective_children", HttpMethod::Patch, "/api/v1/projects/{project}/objectives/{objective}/children", none_query());
    proof { seen = seen.insert("coordinator_objective_children"@); }
    ops
}

/// The tool arguments as keys and JSON values, in order.
pub open spec fn args_view(a: Seq<(String, JsonTree)>) -> Seq<(Seq<char>, JsonTree)> {
    a.map_values(|p: (String, JsonTree)| (p.0@, p.1))
}

/// The first argument named `k`.
pub open spec fn find_key(a: Seq<(Seq<char>, JsonTree)>, k: Seq<char>) -> Option<int>
    decreases a.len(),
{
    if a.len() == 0 {
        None
    } else {
        match find_key(a.drop_last(), k) {
            Some(i) => Some(i),
            None => if a.last().0 == k {
                Some(a.len() - 1)
            } else {
                None
            },
        }
    }
}

/// The first catalog entry named `name`.
pub open spec fn find_op(ops: Seq<OperationView>, name: Seq<char>) -> Option<int>
    decreases ops.len(),
{
    if ops.len() == 0 {
        None
    } else {
        match find_op(ops.drop_last(), name) {
            Some(i) => Some(i),
            None => if ops.last().name == name {
                Some(ops.len() - 1)
            } else {
                None
            },
        }
    }
}

/// The type of the first query rule for field `k`.
pub open spec fn find_rule(rules: Seq<(Seq<char>, QueryKind)>, k: Seq<char>) -> Option<QueryKind>
    decreases rules.len(),
{
    if rules.len() == 0 {
        None
    } else {
        match find_rule(rules.drop_last(), k) {
            Some(q) => Some(q),
            None => if rules.last().0 == k {
                Some(rules.last().1)
            } else {
                None
            },
        }
    }
}

/// The text of the first member named `k` of a JSON object, when it is a string.
pub open spec fn member_text(f: Seq<JsonField>, k: Seq<char>) -> Option<Seq<char>> {
    match member_index(f, k) {
        Some(i) => match f[i].value {
            JsonTree::Text(s) => Some(s@),
            _ => None,
        },
        None => None,
    }
}

pub open spec fn member_index(f: Seq<JsonField>, k: Seq<char>) -> Option<int>
    decreases f.len(),
{
    if f.len() == 0 {
        None
    } else {
        match member_index(f.drop_last(), k) {
            Some(i) => Some(i),
            None => if f.last().key@ == k {
                Some(f.len() - 1)
            } else {
                None
            },
        }
    }
}

/// The argument for one path field: absent, a string, or some other JSON value.
pub open spec fn path_arg(a: Seq<(Seq<char>, JsonTree)>, f: Seq<char>) -> PathArgument {
    match find_key(a, f) {
        None => PathArgument::Absent,
        Some(i) => match a[i].1 {
            JsonTree::Text(s) => PathArgument::Text(s),
            _ => PathArgument::NotText,
        },
    }
}

pub open spec fn path_args(a: Seq<(Seq<char>, JsonTree)>, fields: Seq<Seq<char>>) -> Seq<PathArgument> {
    Seq::new(fields.len(), |j: int| path_arg(a, fields[j]))
}

/// The text of argument `k`, when it is a string.
pub open spec fn text_arg(a: Seq<(Seq<char>, JsonTree)>, k: Seq<char>) -> Option<Seq<char>> {
    match find_key(a, k) {
        Some(i) => match a[i].1 {
            JsonTree::Text(s) => Some(s@),
            _ => None,
        },
        None => None,
    }
}

pub open spec fn key_message() -> Seq<char> {
    "Persist and supply a 16–128 character idempotency_key using letters, digits, dash, underscore, dot, or colon."@
}

/// The idempotency key and body of a tool that takes a body: a valid key, an object body,
/// and for session registration the configured session named in the body.
pub open spec fn body_part(
    op: OperationView,
    name: Seq<char>,
    a: Seq<(Seq<char>, JsonTree)>,
    session_values: Seq<Option<String>>,
) -> Result<(Option<Seq<char>>, Option<JsonTree>), ErrorView> {
    if !op.has_body {
        Ok((None, None))
    } else if !(text_arg(a, "idempotency_key"@) matches Some(k) && idempotency_key_ok(k)) {
        Err(bad_request_view(key_message()))
    } else if !(find_key(a, "body"@) matches Some(i) && a[i].1 is Object) {
        Err(bad_request_view("Supply the tool's typed body object."@))
    } else {
        let body = a[find_key(a, "body"@)->Some_0].1;
        let key = text_arg(a, "idempotency_key"@);
        if name == "coordinator_session_register"@ {
            match header_value_spec(session_values) {
                Err(e) => Err(e),
                Ok(h) => match registration_refusal(h, member_text(body->Object_0@, "session_id"@)) {
                    Some(e) => Err(e),
                    None => Ok((key, Some(body))),
                },
            }
        } else {
            Ok((key, Some(body)))
        }
    }
}

/// The query text of a JSON value for a field of the given type: a string of at most 8192
/// bytes without NUL, an integer in decimal, a boolean as `true` or `false`.
pub open spec fn query_arg_text(kind: QueryKind, t: JsonTree) -> Option<Seq<char>> {
    match kind {
        QueryKind::Text => match t {
            JsonTree::Text(s) => if utf8_len(s@) <= 8192 && !s@.contains('\0') {
                Some(s@)
            } else {
                None
            },
            _ => None,
        },
        QueryKind::Integer => match t {
            JsonTree::Number(n) => match crate::text::parse_i64_text(n@) {
                Some(v) => Some(crate::history::signed_decimal(v)),
                None => None,
            },
            _ => None,
        },
        QueryKind::Boolean => match t {
            JsonTree::Bool(b) => Some(
                if b {
                    "true"@
                } else {
                    "false"@
                },
            ),
            _ => None,
        },
    }
}

/// The query pairs of the first `n` members of the query object, or the first refusal.
pub open spec fn query_pairs(
    rules: Seq<(Seq<char>, QueryKind)>,
    fields: Seq<JsonField>,
    n: nat,
) -> Result<Seq<(Seq<char>, Seq<char>)>, ErrorView>
    decreases n,
{
    if n == 0 {
        Ok(seq![])
    } else {
        match query_pairs(rules, fields, (n - 1) as nat) {
            Err(e) => Err(e),
            Ok(p) => {
                let f = fields[n - 1];
                match find_rule(rules, f.key@) {
                    None => Err(bad_request_view("Unsupported query field for this tool."@)),
                    Some(kind) => match query_arg_text(kind, f.value) {
                        None => Err(
                            bad_request_view(
                                "Query field has an invalid type or exceeds the input bound."@,
                            ),
                        ),
                        Some(t) => Ok(p.push((f.key@, t))),
                    },
                }
            },
        }
    }
}

/// The query of a tool call: none without a `query` argument; otherwise the tool must take
/// query fields, the argument must be an object, and each member a supported, well-typed
/// field.
pub open spec fn query_part(op: OperationView, a: Seq<(Seq<char>, JsonTree)>) -> Result<
    Option<Seq<(Seq<char>, Seq<char>)>>,
    ErrorView,
> {
    match find_key(a, "query"@) {
        None => Ok(None),
        Some(i) => if op.query.len() == 0 {
            Err(bad_request_view("This tool does not accept query arguments."@))
        } else {
            match a[i].1 {
                JsonTree::Object(f) => match query_pairs(op.query, f@, f.len() as nat) {
                    Err(e) => Err(e),
                    Ok(p) => Ok(Some(p)),
                },
                _ => Err(bad_request_view("query must be an object."@)),
            }
        },
    }
}

/// Arguments a tool reads: its path identities, its key and body when it takes one, and
/// its query.
pub open spec fn consumed(op: OperationView, k: Seq<char>) -> bool {
    ||| path_fields_spec(op.path).contains(k)
    ||| op.has_body && (k == "idempotency_key"@ || k == "body"@)
    ||| k == "query"@
}

/// `application/x-www-form-urlencoded` text of the pairs, as `url::form_urlencoded`
/// serializes them.
pub uninterp spec fn urlencoded(pairs: Seq<(Seq<char>, Seq<char>)>) -> Seq<char>;

pub open spec fn pairs_view(v: Seq<(String, String)>) -> Seq<(Seq<char>, Seq<char>)> {
    v.map_values(|p: (String, String)| (p.0@, p.1@))
}

/// `url::form_urlencoded::Serializer` over the pairs, in order.
#[verifier::external_body]
fn form_urlencode(pairs: &Vec<(String, String)>) -> (s: String)
    ensures
        s@ == urlencoded(pairs_view(pairs@)),
{
    url::form_urlencoded::Serializer::new(String::new()).extend_pairs(pairs.iter()).finish()
}

/// The route with its encoded query appended, when there is one.
pub open spec fn with_query(path: Seq<char>, q: Option<Seq<(Seq<char>, Seq<char>)>>) -> Seq<char> {
    match q {
        None => path,
        Some(p) => if urlencoded(p).len() > 0 {
            path + seq!['?'] + urlencoded(p)
        } else {
            path
        },
    }
}

/// A tool call as the REST request it becomes.
pub struct PreparedView {
    pub method: HttpMethod,
    pub path: Seq<char>,
    pub idempotency_key: Option<Seq<char>>,
    pub body: Option<JsonTree>,
    pub forward_session_header: bool,
}

pub open spec fn unknown_tool_view() -> ErrorView {
    bad_request_view("Unknown coordination tool. Refresh tools/list."@)
}

pub open spec fn leftover_view() -> ErrorView {
    bad_request_view("Unexpected tool arguments; follow tools/list inputSchema."@)
}

/// The request for a call of tool `name`: the method and route template come only from the
/// catalog entry of that name; the route's identities, the key, the body and the query come
/// from the arguments, checked in that order; any other argument is refused.
pub open spec fn prepared(
    ops: Seq<OperationView>,
    name: Seq<char>,
    a: Seq<(Seq<char>, JsonTree)>,
    session_values: Seq<Option<String>>,
) -> Result<PreparedView, ErrorView> {
    match find_op(ops, name) {
        None => Err(unknown_tool_view()),
        Some(oi) => {
            let op = ops[oi];
            let fields = path_fields_spec(op.path);
            match fill_fields(op.path, fields, path_args(a, fields), session_values, fields.len()) {
                Err(e) => Err(e),
                Ok(path) => match body_part(op, name, a, session_values) {
                    Err(e) => Err(e),
                    Ok((key, body)) => match query_part(op, a) {
                        Err(e) => Err(e),
                        Ok(q) => if exists|j: int| 0 <= j < a.len() && !consumed(op, #[trigger] a[j].0) {
                            Err(leftover_view())
                        } else {
                            Ok(
                                PreparedView {
                                    method: op.method,
                                    path: with_query(path, q),
                                    idempotency_key: key,
                                    body,
                                    forward_session_header: name != "coordinator_session_register"@,
                                },
                            )
                        },
                    },
                },
            }
        },
    }
}

proof fn lemma_find_key_prefix(a: Seq<(Seq<char>, JsonTree)>, k: Seq<char>, n: int)
    requires
        0 <= n <= a.len(),
        find_key(a.take(n), k) is Some,
    ensures
        find_key(a, k) == find_key(a.take(n), k),
    decreases a.len() - n,
{
    if n < a.len() {
        assert(a.drop_last().take(n) =~= a.take(n));
        lemma_find_key_prefix(a.drop_last(), k, n);
    } else {
        assert(a.take(n) =~= a);
    }
}

proof fn lemma_find_op_prefix(v: Seq<OperationView>, name: Seq<char>, n: int)
    requires
        0 <= n <= v.len(),
        find_op(v.take(n), name) is Some,
    ensures
        find_op(v, name) == find_op(v.take(n), name),
    decreases v.len() - n,
{
    if n < v.len() {
        assert(v.drop_last().take(n) =~= v.take(n));
        lemma_find_op_prefix(v.drop_last(), name, n);
    } else {
        assert(v.take(n) =~= v);
    }
}

proof fn lemma_find_rule_prefix(v: Seq<(Seq<char>, QueryKind)>, k: Seq<char>, n: int)
    requires
        0 <= n <= v.len(),
        find_rule(v.take(n), k) is Some,
    ensures
        find_rule(v, k) == find_rule(v.take(n), k),
    decreases v.len() - n,
{
    if n < v.len() {
        assert(v.drop_last().take(n) =~= v.take(n));
        lemma_find_rule_prefix(v.drop_last(), k, n);
    } else {
        assert(v.take(n) =~= v);
    }
}

proof fn lemma_member_index_prefix(f: Seq<JsonField>, k: Seq<char>, n: int)
    requires
        0 <= n <= f.len(),
        member_index(f.take(n), k) is Some,
    ensures
        member_index(f, k) == member_index(f.take(n), k),
    decreases f.len() - n,
{
    if n < f.len() {
        assert(f.drop_last().take(n) =~= f.take(n));
        lemma_member_index_prefix(f.drop_last(), k, n);
    } else {
        assert(f.take(n) =~= f);
    }
}

fn find_operation(ops: &Vec<Operation>, name: &str) -> (r: Option<usize>)
    ensures
        match find_op(ops_view(ops@), name@) {
            Some(i) => r == Some(i as usize),
            None => r is None,
        },
        r matches Some(i) ==> i < ops.len() && ops@[i as int].name@ == name@ && find_op(
            ops_view(ops@),
            name@,
        ) == Some(i as int),
{
    let ghost v = ops_view(ops@);
    let mut i: usize = 0;
    while i < ops.len()
        invariant
            i <= ops.len(),
            v == ops_view(ops@),
            find_op(v.take(i as int), name@) is None,
        decreases ops.len() - i,
    {
        proof {
            assert(v.take(i + 1).drop_last() =~= v.take(i as int));
        }
        if str_eq(ops[i].name.as_str(), name) {
            proof {
                lemma_find_op_prefix(v, name@, i + 1);
            }
            return Some(i);
        }
        i = i + 1;
    }
    proof {
        assert(v.take(ops.len() as int) =~= v);
    }
    None
}

fn find_arg(args: &Vec<(String, JsonTree)>, k: &Vec<char>) -> (r: Option<usize>)
    ensures
        match find_key(args_view(args@), k@) {
            Some(i) => r == Some(i as usize),
            None => r is None,
        },
        r matches Some(i) ==> i < args.len() && args@[i as int].0@ == k@ && find_key(
            args_view(args@),
            k@,
        ) == Some(i as int),
{
    let ghost a = args_view(args@);
    let mut i: usize = 0;
    while i < args.len()
        invariant
            i <= args.len(),
            a == args_view(args@),
            find_key(a.take(i as int), k@) is None,
        decreases args.len() - i,
    {
        proof {
            assert(a.take(i + 1).drop_last() =~= a.take(i as int));
        }
        if crate::text::chars_eq(&chars_of(args[i].0.as_str()), k) {
            proof {
                lemma_find_key_prefix(a, k@, i + 1);
            }
            return Some(i);
        }
        i = i + 1;
    }
    proof {
        assert(a.take(args.len() as int) =~= a);
    }
    None
}

fn rule_for(rules: &Vec<(String, QueryKind)>, k: &str) -> (r: Option<QueryKind>)
    ensures
        r == find_rule(query_rules_view(rules@), k@),
{
    let ghost v = query_rules_view(rules@);
    let mut i: usize = 0;
    while i < rules.len()
        invariant
            i <= rules.len(),
            v == query_rules_view(rules@),
            find_rule(v.take(i as int), k@) is None,
        decreases rules.len() - i,
    {
        proof {
            assert(v.take(i + 1).drop_last() =~= v.take(i as int));
        }
        if str_eq(rules[i].0.as_str(), k) {
            proof {
                lemma_find_rule_prefix(v, k@, i + 1);
            }
            return Some(rules[i].1);
        }
        i = i + 1;
    }
    proof {
        assert(v.take(rules.len() as int) =~= v);
    }
    None
}

fn member_text_of<'a>(f: &'a Vec<JsonField>, k: &str) -> (r: Option<&'a str>)
    ensures
        match r {
            Some(s) => member_text(f@, k@) == Some(s@),
            None => member_text(f@, k@) is None,
        },
{
    let mut i: usize = 0;
    while i < f.len()
        invariant
            i <= f.len(),
            member_index(f@.take(i as int), k@) is None,
        decreases f.len() - i,
    {
        proof {
            assert(f@.take(i + 1).drop_last() =~= f@.take(i as int));
        }
        if str_eq(f[i].key.as_str(), k) {
            proof {
                lemma_member_index_prefix(f@, k@, i + 1);
            }
            return match &f[i].value {
                JsonTree::Text(s) => Some(s.as_str()),
                _ => None,
            };
        }
        i = i + 1;
    }
    proof {
        assert(f@.take(f.len() as int) =~= f@);
    }
    None
}

fn query_arg(kind: QueryKind, t: &JsonTree) -> (r: Option<String>)
    ensures
        match query_arg_text(kind, *t) {
            Some(x) => r matches Some(s) && s@ == x,
            None => r is None,
        },
{
    proof {
        reveal_strlit("true");
        reveal_strlit("false");
    }
    match kind {
        QueryKind::Text => match t {
            JsonTree::Text(s) => if crate::text::byte_len(s.as_str()) <= 8192
                && !crate::text::contains_char(s.as_str(), '\0') {
                Some(s.as_str().to_owned())
            } else {
                None
            },
            _ => None,
        },
        QueryKind::Integer => match t {
            JsonTree::Number(n) => match crate::text::parse_i64(&chars_of(n.as_str())) {
                Some(v) => Some(string_from_chars(&crate::history::i64_text(v))),
                None => None,
            },
            _ => None,
        },
        QueryKind::Boolean => match t {
            JsonTree::Bool(b) => Some(
                if *b {
                    "true".to_owned()
                } else {
                    "false".to_owned()
                },
            ),
            _ => None,
        },
    }
}

fn is_consumed(op: &Operation, fields: &Vec<Vec<char>>, k: &str) -> (r: bool)
    requires
        views(fields@) == path_fields_spec(op.path@),
    ensures
        r == consumed(op@, k@),
{
    let kc = chars_of(k);
    let mut found = false;
    let mut i: usize = 0;
    while i < fields.len()
        invariant
            i <= fields.len(),
            kc@ == k@,
            found == views(fields@).take(i as int).contains(k@),
        decreases fields.len() - i,
    {
        proof {
            assert(views(fields@).take(i + 1) =~= views(fields@).take(i as int).push(fields@[i as int]@));
        }
        let hit = crate::text::chars_eq(&fields[i], &kc);
        proof {
            let before = views(fields@).take(i as int);
            let after = views(fields@).take(i + 1);
            if hit {
                assert(after[i as int] == k@);
            }
            if after.contains(k@) && !hit {
                let m = choose|m: int| 0 <= m < after.len() && after[m] == k@;
                assert(m < i);
                assert(before[m] == k@);
            }
            if before.contains(k@) {
                let m = choose|m: int| 0 <= m < before.len() && before[m] == k@;
                assert(after[m] == k@);
            }
        }
        if hit {
            found = true;
        }
        i = i + 1;
    }
    proof {
        assert(views(fields@).take(fields.len() as int) =~= views(fields@));
    }
    found || (op.has_body && (str_eq(k, "idempotency_key") || str_eq(k, "body"))) || str_eq(k, "query")
}

/// The REST request a tool call becomes: the entry's method, the filled route with its
/// query, the idempotency key and body of a tool that takes one, and whether the configured
/// session header is forwarded (not for session registration).
#[derive(Debug)]
pub struct PreparedRequest {
    pub method: HttpMethod,
    pub path: String,
    pub idempotency_key: Option<String>,
    pub body: Option<JsonTree>,
    pub forward_session_header: bool,
}

impl View for PreparedRequest {
    type V = PreparedView;

    open spec fn view(&self) -> PreparedView {
        PreparedView {
            method: self.method,
            path: self.path@,
            idempotency_key: match self.idempotency_key {
                Some(k) => Some(k@),
                None => None,
            },
            body: self.body,
            forward_session_header: self.forward_session_header,
        }
    }
}

/// Turns a call of tool `name` with its arguments into the REST request the catalog fixes
/// for it. `session_values` are the values of the configured session header.
#[verifier::loop_isolation(false)]
pub fn prepare(
    ops: &Vec<Operation>,
    name: &str,
    args: Vec<(String, JsonTree)>,
    session_values: &Vec<Option<String>>,
) -> (r: Result<PreparedRequest, AppError>)
    ensures
        match prepared(ops_view(ops@), name@, args_view(args@), session_values@) {
            Ok(p) => (r matches Ok(q) && q@ == p),
            Err(v) => (r matches Err(e) && e@ == v),
        },
{
    let ghost a = args_view(args@);
    let ghost v = ops_view(ops@);
    let oi = match find_operation(ops, name) {
        None => {
            return Err(AppError::bad_request("Unknown coordination tool. Refresh tools/list."));
        },
        Some(i) => i,
    };
    let op = &ops[oi];
    assert(v[oi as int] == op@);
    let fields = path_fields(op.path.as_str());
    let ghost fs = path_fields_spec(op.path@);
    let mut pargs: Vec<PathArgument> = Vec::new();
    let mut j: usize = 0;
    while j < fields.len()
        invariant
            j <= fields.len(),
            views(fields@) == fs,
            a == args_view(args@),
            pargs@ == path_args(a, fs).take(j as int),
        decreases fields.len() - j,
    {
        let found = find_arg(&args, &fields[j]);
        proof {
            assert(fields@[j as int]@ == fs[j as int]);
        }
        let arg = match found {
            None => {
                assert(find_key(a, fs[j as int]) is None);
                PathArgument::Absent
            },
            Some(i) => {
                assert(find_key(a, fs[j as int]) == Some(i as int));
                assert(a[i as int] == (args@[i as int].0@, args@[i as int].1));
                match &args[i].1 {
                    JsonTree::Text(s) => {
                        let c = s.clone();
                        assert(c == *s);
                        assert(a[i as int].1 == JsonTree::Text(*s));
                        PathArgument::Text(c)
                    },
                    _ => {
                        assert(!(a[i as int].1 is Text));
                        PathArgument::NotText
                    },
                }
            },
        };
        proof {
            assert(arg == path_arg(a, fs[j as int]));
        }
        pargs.push(arg);
        proof {
            assert(pargs@ =~= path_args(a, fs).take(j + 1));
        }
        j = j + 1;
    }
    proof {
        assert(pargs@ =~= path_args(a, fs));
    }
    let path = match fill_path(op.path.as_str(), &pargs, session_values) {
        Ok(p) => p,
        Err(e) => {
            return Err(e);
        },
    };
    let mut key: Option<String> = None;
    let mut body_index: Option<usize> = None;
    if op.has_body {
        let ki = find_arg(&args, &chars_of("idempotency_key"));
        let kv: Option<&str> = match ki {
            Some(i) => match &args[i].1 {
                JsonTree::Text(s) => Some(s.as_str()),
                _ => None,
            },
            None => None,
        };
        let k = match idempotency_key(kv) {
            Ok(k) => k,
            Err(e) => {
                return Err(e);
            },
        };
        let bi = match find_arg(&args, &chars_of("body")) {
            Some(i) => match &args[i].1 {
                JsonTree::Object(_) => i,
                _ => {
                    return Err(AppError::bad_request("Supply the tool's typed body object."));
                },
            },
            None => {
                return Err(AppError::bad_request("Supply the tool's typed body object."));
            },
        };
        if str_eq(name, "coordinator_session_register") {
            let h = match header_value(session_values) {
                Ok(h) => h,
                Err(e) => {
                    return Err(e);
                },
            };
            let sid = match &args[bi].1 {
                JsonTree::Object(f) => member_text_of(f, "session_id"),
                _ => None,
            };
            if let Err(e) = check_registration(h.as_str(), sid) {
                return Err(e);
            }
        }
        key = Some(k);
        body_index = Some(bi);
    }
    assert(body_part(op@, name@, a, session_values@) == Ok::<
        (Option<Seq<char>>, Option<JsonTree>),
        ErrorView,
    >(
        (
            match key {
                Some(k) => Some(k@),
                None => None,
            },
            match body_index {
                Some(bi) => Some(a[bi as int].1),
                None => None,
            },
        ),
    ));
    let mut query: Option<Vec<(String, String)>> = None;
    match find_arg(&args, &chars_of("query")) {
        None => {},
        Some(qi) => {
            if op.query.len() == 0 {
                return Err(AppError::bad_request("This tool does not accept query arguments."));
            }
            match &args[qi].1 {
                JsonTree::Object(f) => {
                    let mut pairs: Vec<(String, String)> = Vec::new();
                    assert(pairs_view(pairs@) =~= Seq::<(Seq<char>, Seq<char>)>::empty());
                    let mut m: usize = 0;
                    while m < f.len()
                        invariant
                            m <= f.len(),
                            query_pairs(op@.query, f@, m as nat) == Ok::<
                                Seq<(Seq<char>, Seq<char>)>,
                                ErrorView,
                            >(pairs_view(pairs@)),
                        decreases f.len() - m,
                    {
                        let kind = match rule_for(&op.query, f[m].key.as_str()) {
                            None => {
                                proof {
                                    lemma_query_error_stable(op@.query, f@, (m + 1) as nat, f.len() as nat);
                                }
                                return Err(AppError::bad_request("Unsupported query field for this tool."));
                            },
                            Some(kind) => kind,
                        };
                        let text = match query_arg(kind, &f[m].value) {
                            None => {
                                proof {
                                    lemma_query_error_stable(op@.query, f@, (m + 1) as nat, f.len() as nat);
                                }
                                return Err(
                                    AppError::bad_request(
                                        "Query field has an invalid type or exceeds the input bound.",
                                    ),
                                );
                            },
                            Some(t) => t,
                        };
                        let ghost before = pairs_view(pairs@);
                        pairs.push((f[m].key.clone(), text));
                        proof {
                            assert(pairs_view(pairs@) =~= before.push((f@[m as int].key@, text@)));
                        }
                        m = m + 1;
                    }
                    query = Some(pairs);
                },
                _ => {
                    return Err(AppError::bad_request("query must be an object."));
                },
            }
        },
    }
    assert(query_part(op@, a) == Ok::<Option<Seq<(Seq<char>, Seq<char>)>>, ErrorView>(
        match query {
            Some(p) => Some(pairs_view(p@)),
            None => None,
        },
    ));
    let mut t: usize = 0;
    while t < args.len()
        invariant
            t <= args.len(),
            a == args_view(args@),
            views(fields@) == path_fields_spec(op.path@),
            forall|x: int| 0 <= x < t ==> consumed(op@, #[trigger] a[x].0),
        decreases args.len() - t,
    {
        if !is_consumed(op, &fields, args[t].0.as_str()) {
            assert(!consumed(op@, a[t as int].0));
            return Err(
                AppError::bad_request("Unexpected tool arguments; follow tools/list inputSchema."),
            );
        }
        t = t + 1;
    }
    let full = match &query {
        None => path,
        Some(p) => {
            let enc = form_urlencode(p);
            if chars_of(enc.as_str()).len() > 0 {
                let head = crate::text::concat(path.as_str(), "?");
                proof {
                    reveal_strlit("?");
                    assert("?"@ =~= seq!['?']);
                }
                crate::text::concat(head.as_str(), enc.as_str())
            } else {
                path
            }
        },
    };
    let forward = !str_eq(name, "coordinator_session_register");
    let method = op.method;
    let mut args = args;
    let body = match body_index {
        Some(bi) => Some(args.swap_remove(bi).1),
        None => None,
    };
    Ok(
        PreparedRequest {
            method,
            path: full,
            idempotency_key: key,
            body,
            forward_session_header: forward,
        },
    )
}

proof fn lemma_query_error_stable(
    rules: Seq<(Seq<char>, QueryKind)>,
    fields: Seq<JsonField>,
    a: nat,
    b: nat,
)
    requires
        a <= b,
        query_pairs(rules, fields, a) is Err,
    ensures
        query_pairs(rules, fields, b) == query_pairs(rules, fields, a),
    decreases b - a,
{
    if a < b {
        lemma_query_error_stable(rules, fields, a, (b - 1) as nat);
    }
}

/// A tool request never chooses its URL or method: whatever the arguments, a prepared
/// request carries the method of the catalog entry named by the tool, and its path is that
/// entry's route template with the template's identities filled in, followed only by the
/// encoded query.
pub proof fn law_tool_requests_follow_the_catalog(
    ops: Seq<OperationView>,
    name: Seq<char>,
    a: Seq<(Seq<char>, JsonTree)>,
    session_values: Seq<Option<String>>,
)
    requires
        prepared(ops, name, a, session_values) is Ok,
    ensures
        ({
            let p = prepared(ops, name, a, session_values)->Ok_0;
            &&& find_op(ops, name) is Some
            &&& ({
                let op = ops[find_op(ops, name)->Some_0];
                let fields = path_fields_spec(op.path);
                let filled = fill_fields(op.path, fields, path_args(a, fields), session_values, fields.len());
                &&& op.name == name
                &&& p.method == op.method
                &&& filled is Ok
                &&& (p.path == filled->Ok_0 || p.path == filled->Ok_0 + seq!['?'] + urlencoded(
                    query_part(op, a)->Ok_0->Some_0,
                ))
                &&& (p.body is Some <==> op.has_body)
            })
        }),
{
    lemma_find_op_named(ops, name);
}

/// In a catalog whose names are distinct, a tool name picks out exactly one entry: the
/// entry that a request is prepared from is the one that carries the name.
pub proof fn law_a_tool_name_names_one_entry(ops: Seq<OperationView>, name: Seq<char>, i: int)
    requires
        names_distinct(ops),
        0 <= i < ops.len(),
        ops[i].name == name,
    ensures
        find_op(ops, name) == Some(i),
    decreases ops.len(),
{
    let init = ops.drop_last();
    if i < ops.len() - 1 {
        assert(init[i] == ops[i]);
        assert(names_distinct(init)) by {
            assert forall|a: int, b: int| 0 <= a < b < init.len() implies #[trigger] init[a].name
                != #[trigger] init[b].name by {
                assert(init[a] == ops[a] && init[b] == ops[b]);
            }
        }
        law_a_tool_name_names_one_entry(init, name, i);
    } else {
        lemma_find_op_named(init, name);
        if let Some(k) = find_op(init, name) {
            assert(init[k] == ops[k]);
            assert(ops[k].name != ops[i].name);
        }
    }
}

proof fn lemma_find_op_named(ops: Seq<OperationView>, name: Seq<char>)
    ensures
        find_op(ops, name) matches Some(i) ==> 0 <= i < ops.len() && ops[i].name == name,
    decreases ops.len(),
{
    if ops.len() > 0 {
        lemma_find_op_named(ops.drop_last(), name);
    }
}

} // verus!
