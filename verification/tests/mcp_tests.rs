use coordinator_server::catalog::{
    build_catalog, fill_path, prepare, query_value, HttpMethod, PathArgument, PreparedRequest, QueryValue,
};
use coordinator_server::error::AppError;
use coordinator_server::history::{JsonField, JsonTree};
use coordinator_server::mcp::{
    sanitized_sdk_headers,
    authority_matches, authority_parts, canonical_authority, effective_port, forwards_to_sdk,
    same_origin, url_parts,
};

fn matches(authority: &str, configured: &str) -> bool {
    let (host, port) = authority_parts(authority).unwrap();
    authority_matches(&host, port, &url_parts(configured).unwrap())
}

#[test]
fn host_and_origin_matching_normalizes_default_ports() {
    let configured = "https://Example.COM";
    assert!(matches("example.com:443", configured));
    assert!(!matches("example.com:444", configured));
    assert!(same_origin(
        &url_parts("https://example.com:443").unwrap(),
        &url_parts(configured).unwrap()
    ));
    assert!(!same_origin(
        &url_parts("http://example.com").unwrap(),
        &url_parts(configured).unwrap()
    ));
    let ipv6 = "https://[::1]:8443";
    assert_eq!(canonical_authority(&url_parts(ipv6).unwrap()).unwrap(), "[::1]:8443");
    assert!(matches("[::1]:8443", ipv6));
    assert!(!matches("[::1]", ipv6));
    let ipv6_default = "http://[::1]";
    assert_eq!(canonical_authority(&url_parts(ipv6_default).unwrap()).unwrap(), "[::1]");
    assert!(matches("[::1]:80", ipv6_default));
}

#[test]
fn sdk_headers_never_receive_coordinator_credentials() {
    let pair = |name: &str, value: &str| (name.to_owned(), value.to_owned());
    let headers = vec![
        pair("host", "example.com"),
        pair("authorization", "Bearer secret"),
        pair("x-coordinator-session", "session-secret"),
        pair("x-coordinator-session-proof", "proof-secret"),
        pair("cookie", "cookie-secret"),
        pair("mcp-protocol-version", "2025-11-25"),
        pair("x-unknown-secret", "unknown-secret"),
    ];
    let sanitized = sanitized_sdk_headers(&headers, "https://example.com").unwrap();
    let get = |name: &str| sanitized.iter().find(|(n, _)| n == name).map(|(_, v)| v.clone());
    assert_eq!(get("host").unwrap(), "example.com");
    assert!(get("mcp-protocol-version").is_some());
    for forbidden in [
        "authorization",
        "x-coordinator-session",
        "x-coordinator-session-proof",
        "cookie",
        "x-unknown-secret",
    ] {
        assert!(get(forbidden).is_none());
        assert!(!forwards_to_sdk(forbidden));
    }
    assert!(forwards_to_sdk("mcp-protocol-version"));
    let with_origin = vec![pair("origin", "https://evil.example"), pair("accept", "*/*")];
    let sanitized = sanitized_sdk_headers(&with_origin, "https://example.com").unwrap();
    assert_eq!(sanitized, vec![pair("host", "example.com"), pair("origin", "https://example.com"), pair("accept", "*/*")]);
}

fn text(v: &str) -> JsonTree {
    JsonTree::Text(v.to_owned())
}

fn arg(k: &str, v: JsonTree) -> (String, JsonTree) {
    (k.to_owned(), v)
}

fn member(k: &str, v: JsonTree) -> JsonField {
    JsonField { key: k.to_owned(), value: v }
}

fn call(name: &str, args: Vec<(String, JsonTree)>, session: &[&str]) -> Result<PreparedRequest, AppError> {
    let headers: Vec<Option<String>> = session.iter().map(|v| Some((*v).to_owned())).collect();
    prepare(&build_catalog(), name, args, &headers)
}

#[test]
fn query_values_are_encoded_without_changing_the_fixed_route() {
    let args = vec![
        arg("project", text("project-1")),
        arg(
            "query",
            JsonTree::Object(vec![
                member("q", text("x&limit=999#fragment?")),
                member("include_shared", JsonTree::Bool(true)),
            ]),
        ),
    ];
    let request = call("coordinator_context", args, &[]).unwrap();
    assert_eq!(request.method, HttpMethod::Get);
    let (path, query) = request.path.split_once('?').unwrap();
    assert_eq!(path, "/api/v1/projects/project-1/context");
    let query: Vec<(String, String)> =
        url::form_urlencoded::parse(query.as_bytes()).map(|(k, v)| (k.into_owned(), v.into_owned())).collect();
    assert_eq!(query.len(), 2);
    assert_eq!(query.iter().find(|(k, _)| k == "q").unwrap().1, "x&limit=999#fragment?");
    assert!(request.body.is_none());
    assert!(request.idempotency_key.is_none());
    assert!(request.forward_session_header);
    let q = query_value(Some("string"), &QueryValue::Text("x&limit=999#fragment?".to_owned())).unwrap();
    assert_eq!(q, "x&limit=999#fragment?");
}

#[test]
fn session_defaults_to_configured_identity_and_cannot_be_switched() {
    let request = call("coordinator_session_get", vec![], &["saved-session"]).unwrap();
    assert_eq!(request.path, "/api/v1/sessions/saved-session");
    assert!(call("coordinator_session_get", vec![arg("session", text("other"))], &["saved-session"]).is_err());
    let path = fill_path("/api/v1/sessions/{session}", &vec![PathArgument::Absent], &vec![Some("saved-session".to_owned())]).unwrap();
    assert_eq!(path, "/api/v1/sessions/saved-session");
}

#[test]
fn the_catalog_is_closed_and_its_names_are_distinct() {
    let ops = build_catalog();
    assert_eq!(ops.len(), 56);
    let mut names: Vec<&str> = ops.iter().map(|o| o.name.as_str()).collect();
    names.sort();
    names.dedup();
    assert_eq!(names.len(), 56);
    let patch: Vec<&str> = ops.iter().filter(|o| o.method == HttpMethod::Patch).map(|o| o.name.as_str()).collect();
    assert_eq!(
        patch,
        vec!["coordinator_task_edit", "coordinator_knowledge_edit", "coordinator_policy_update", "coordinator_objective_children"]
    );
    for o in &ops {
        assert_eq!(o.has_body, o.method != HttpMethod::Get);
        assert!(o.path.starts_with("/api/v1/"));
    }
}

#[test]
fn tool_calls_are_refused_outside_the_catalog_rules() {
    assert_eq!(call("coordinator_shell", vec![], &[]).unwrap_err().message, "Unknown coordination tool. Refresh tools/list.");
    let e = call("coordinator_task_get", vec![arg("project", text("p")), arg("task", text("t")), arg("url", text("x"))], &[]).unwrap_err();
    assert_eq!(e.message, "Unexpected tool arguments; follow tools/list inputSchema.");
    let e = call("coordinator_task_get", vec![arg("project", text("..")), arg("task", text("t"))], &[]).unwrap_err();
    assert!(e.message.starts_with("Provide every path identity"));
    let e = call(
        "coordinator_task_get",
        vec![arg("project", text("p")), arg("task", text("t")), arg("query", JsonTree::Object(vec![]))],
        &[],
    )
    .unwrap_err();
    assert_eq!(e.message, "This tool does not accept query arguments.");
    let e = call("coordinator_tasks_list", vec![arg("project", text("p")), arg("query", text("x"))], &[]).unwrap_err();
    assert_eq!(e.message, "query must be an object.");
    let e = call(
        "coordinator_tasks_list",
        vec![arg("project", text("p")), arg("query", JsonTree::Object(vec![member("order", text("x"))]))],
        &[],
    )
    .unwrap_err();
    assert_eq!(e.message, "Unsupported query field for this tool.");
    let e = call(
        "coordinator_tasks_list",
        vec![arg("project", text("p")), arg("query", JsonTree::Object(vec![member("limit", JsonTree::Number("1.5".to_owned()))]))],
        &[],
    )
    .unwrap_err();
    assert_eq!(e.message, "Query field has an invalid type or exceeds the input bound.");
    let ok = call(
        "coordinator_tasks_list",
        vec![arg("project", text("p")), arg("query", JsonTree::Object(vec![member("limit", JsonTree::Number("20".to_owned()))]))],
        &[],
    )
    .unwrap();
    assert_eq!(ok.path, "/api/v1/projects/p/tasks?limit=20");
}

#[test]
fn writes_need_a_key_and_an_object_body() {
    let key = "0123456789abcdef-key";
    let base = || vec![arg("project", text("p")), arg("task", text("t"))];
    let e = call("coordinator_task_edit", base(), &[]).unwrap_err();
    assert!(e.message.starts_with("Persist and supply"));
    let mut args = base();
    args.push(arg("idempotency_key", text(key)));
    args.push(arg("body", text("{}")));
    assert_eq!(call("coordinator_task_edit", args, &[]).unwrap_err().message, "Supply the tool's typed body object.");
    let mut args = base();
    args.push(arg("idempotency_key", text(key)));
    args.push(arg("body", JsonTree::Object(vec![member("title", text("new"))])));
    let request = call("coordinator_task_edit", args, &[]).unwrap();
    assert_eq!(request.method, HttpMethod::Patch);
    assert_eq!(request.path, "/api/v1/projects/p/tasks/t");
    assert_eq!(request.idempotency_key.as_deref(), Some(key));
    match request.body {
        Some(JsonTree::Object(f)) => assert_eq!(f[0].key, "title"),
        _ => panic!("expected the body"),
    }
    let register = |sid: &str| {
        vec![
            arg("idempotency_key", text(key)),
            arg("body", JsonTree::Object(vec![member("session_id", text(sid))])),
        ]
    };
    let request = call("coordinator_session_register", register("s-1"), &["s-1"]).unwrap();
    assert!(!request.forward_session_header);
    assert_eq!(request.path, "/api/v1/sessions");
    let e = call("coordinator_session_register", register("s-2"), &["s-1"]).unwrap_err();
    assert!(e.message.starts_with("body.session_id must match"));
}

#[test]
fn default_ports_follow_the_scheme() {
    assert_eq!(effective_port(None, "https"), Some(443));
    assert_eq!(effective_port(None, "http"), Some(80));
    assert_eq!(effective_port(None, "ftp"), None);
    assert_eq!(effective_port(Some(8080), "https"), Some(8080));
}

#[test]
fn path_identities_refuse_traversal_and_bad_types() {
    let err = fill_path("/api/v1/projects/{project}", &vec![PathArgument::Text("..".to_owned())], &vec![])
        .unwrap_err();
    assert_eq!(err.status, 400);
    assert!(fill_path("/api/v1/projects/{project}", &vec![PathArgument::NotText], &vec![]).is_err());
    let err = fill_path("/api/v1/sessions/{session}", &vec![PathArgument::Absent], &vec![]).unwrap_err();
    assert_eq!(err.status, 400);
    let forbidden = fill_path(
        "/api/v1/sessions/{session}",
        &vec![PathArgument::Text("other".to_owned())],
        &vec![Some("mine".to_owned())],
    )
    .unwrap_err();
    assert_eq!(forbidden.status, 403);
}

#[test]
fn query_values_are_typed() {
    assert_eq!(query_value(Some("integer"), &QueryValue::Integer(-42)).unwrap(), "-42");
    assert!(query_value(Some("integer"), &QueryValue::Text("1".to_owned())).is_err());
    assert!(query_value(Some("string"), &QueryValue::Text("a\0b".to_owned())).is_err());
    assert!(query_value(None, &QueryValue::Boolean(false)).is_err());
}
