//! The MCP transport's request checks: which Host and Origin a request may carry for the
//! configured public origin, default ports, and which headers reach the MCP library.
use vstd::prelude::*;

use crate::error::{auth_required_view, bad_request_view, error_view, internal_view, AppError, ErrorView};
use crate::history::{lower, lower_text};
use crate::text::{chars_of, decimal, decimal_chars, has_prefix, starts_with, str_eq, string_from_chars};

verus! {

/// The host of a parsed URL.
pub enum UrlHost {
    Domain(String),
    Ipv4(String),
    Ipv6(String),
}

/// A URL's parts, as the `url` crate reports them.
pub struct UrlParts {
    pub scheme: String,
    pub host: Option<UrlHost>,
    /// `Url::host_str`: the host as written in the URL (IPv6 in brackets).
    pub host_str: Option<String>,
    /// `Url::port`: absent when it is the scheme's default.
    pub port: Option<u16>,
    pub username: String,
    pub password: Option<String>,
    pub path: String,
    pub query: Option<String>,
    pub fragment: Option<String>,
}

pub enum HostView {
    Domain(Seq<char>),
    Ipv4(Seq<char>),
    Ipv6(Seq<char>),
}

pub struct UrlView {
    pub scheme: Seq<char>,
    pub host: Option<HostView>,
    pub host_str: Option<Seq<char>>,
    pub port: Option<u16>,
    pub username: Seq<char>,
    pub password: Option<Seq<char>>,
    pub path: Seq<char>,
    pub query: Option<Seq<char>>,
    pub fragment: Option<Seq<char>>,
}

pub open spec fn text_opt(o: Option<String>) -> Option<Seq<char>> {
    match o {
        Some(s) => Some(s@),
        None => None,
    }
}

pub open spec fn host_view(h: UrlHost) -> HostView {
    match h {
        UrlHost::Domain(s) => HostView::Domain(s@),
        UrlHost::Ipv4(s) => HostView::Ipv4(s@),
        UrlHost::Ipv6(s) => HostView::Ipv6(s@),
    }
}

pub open spec fn url_view(u: UrlParts) -> UrlView {
    UrlView {
        scheme: u.scheme@,
        host: match u.host {
            Some(h) => Some(host_view(h)),
            None => None,
        },
        host_str: text_opt(u.host_str),
        port: u.port,
        username: u.username@,
        password: text_opt(u.password),
        path: u.path@,
        query: text_opt(u.query),
        fragment: text_opt(u.fragment),
    }
}

/// What `url::Url::parse` reads from a text: its parts, or `None` when it does not parse.
pub uninterp spec fn parsed_url(text: Seq<char>) -> Option<UrlView>;

/// `url::Url::parse`, reporting the parsed URL's scheme, `host_str`, port, user name,
/// password, path, query and fragment (its host kind comes from [`url_host`]). The parts
/// depend on the text alone.
#[verifier::external_body]
fn url_fields(text: &str) -> (r: Option<UrlParts>)
    ensures
        match parsed_url(text@) {
            Some(v) => (r matches Some(u) && url_view(u) == UrlView { host: url_view(u).host, ..v }),
            None => r is None,
        },
{
    let u = url::Url::parse(text).ok()?;
    let owned = |s: Option<&str>| s.map(str::to_owned);
    Some(UrlParts { scheme: u.scheme().to_owned(), host: None, host_str: owned(u.host_str()),
        port: u.port(), username: u.username().to_owned(), password: owned(u.password()),
        path: u.path().to_owned(), query: owned(u.query()), fragment: owned(u.fragment()) })
}

/// `url::Url::host` of the parsed text: a domain, or an IP address by its `Display` text.
#[verifier::external_body]
fn url_host(text: &str) -> (r: Option<UrlHost>)
    ensures
        match parsed_url(text@) {
            Some(v) => match v.host {
                Some(h) => (r matches Some(x) && host_view(x) == h),
                None => r is None,
            },
            None => r is None,
        },
{
    match url::Url::parse(text).ok()?.host()? {
        url::Host::Domain(h) => Some(UrlHost::Domain(h.to_owned())),
        url::Host::Ipv4(h) => Some(UrlHost::Ipv4(h.to_string())),
        url::Host::Ipv6(h) => Some(UrlHost::Ipv6(h.to_string())),
    }
}

/// A parsed URL's parts.
fn url_parse(text: &str) -> (r: Option<UrlParts>)
    ensures
        match parsed_url(text@) {
            Some(v) => (r matches Some(u) && url_view(u) == v),
            None => r is None,
        },
{
    match url_fields(text) {
        None => None,
        Some(mut u) => {
            u.host = url_host(text);
            Some(u)
        },
    }
}

/// The parts of a URL, or `None` when the text is not a URL.
pub fn url_parts(text: &str) -> (r: Option<UrlParts>)
    ensures
        match parsed_url(text@) {
            Some(v) => (r matches Some(u) && url_view(u) == v),
            None => r is None,
        },
{
    url_parse(text)
}

/// What `http::uri::Authority` reads from a Host header: its host (IPv6 in brackets) and
/// port, or `None` when it does not parse.
pub uninterp spec fn parsed_authority(text: Seq<char>) -> Option<(Seq<char>, Option<u16>)>;

/// `text.parse::<http::uri::Authority>()`, reporting `host()` and `port_u16()`; the result
/// depends on the text alone.
#[verifier::external_body]
fn authority_parse(text: &str) -> (r: Option<(String, Option<u16>)>)
    ensures
        match parsed_authority(text@) {
            Some((h, p)) => (r matches Some(a) && a.0@ == h && a.1 == p),
            None => r is None,
        },
{
    let a = text.parse::<axum::http::uri::Authority>().ok()?;
    Some((a.host().to_owned(), a.port_u16()))
}

/// The host and port of a Host header value, or `None` when it is not an authority.
pub fn authority_parts(text: &str) -> (r: Option<(String, Option<u16>)>)
    ensures
        match parsed_authority(text@) {
            Some((h, p)) => (r matches Some(a) && a.0@ == h && a.1 == p),
            None => r is None,
        },
{
    authority_parse(text)
}

/// The port a URL of this scheme uses: the given one, else 443 for https and 80 for http.
pub open spec fn effective_port_spec(port: Option<u16>, scheme: Seq<char>) -> Option<u16> {
    match port {
        Some(p) => Some(p),
        None => if scheme == "https"@ {
            Some(443u16)
        } else if scheme == "http"@ {
            Some(80u16)
        } else {
            None
        },
    }
}

pub fn effective_port(port: Option<u16>, scheme: &str) -> (r: Option<u16>)
    ensures
        r == effective_port_spec(port, scheme@),
{
    match port {
        Some(p) => Some(p),
        None => if str_eq(scheme, "https") {
            Some(443)
        } else if str_eq(scheme, "http") {
            Some(80)
        } else {
            None
        },
    }
}

/// `str::eq_ignore_ascii_case`.
pub open spec fn same_ignoring_case(a: Seq<char>, b: Seq<char>) -> bool {
    lower_text(a) == lower_text(b)
}

fn eq_ignore_case(a: &str, b: &str) -> (r: bool)
    ensures
        r == same_ignoring_case(a@, b@),
{
    let x = chars_of(a);
    let y = chars_of(b);
    if x.len() != y.len() {
        proof {
            assert(lower_text(a@).len() != lower_text(b@).len());
        }
        return false;
    }
    let mut i: usize = 0;
    while i < x.len()
        invariant
            i <= x.len() == y.len(),
            x@ == a@,
            y@ == b@,
            forall|k: int| 0 <= k < i ==> lower(x@[k]) == lower(y@[k]),
        decreases x.len() - i,
    {
        let c = x[i];
        let d = y[i];
        let lc = if 'A' <= c && c <= 'Z' {
            ((c as u8) + 32) as char
        } else {
            c
        };
        let ld = if 'A' <= d && d <= 'Z' {
            ((d as u8) + 32) as char
        } else {
            d
        };
        if lc != ld {
            assert(lower_text(a@)[i as int] != lower_text(b@)[i as int]);
            return false;
        }
        i = i + 1;
    }
    assert(lower_text(a@) =~= lower_text(b@));
    true
}

/// The text of a URL's host for comparison with a Host header (IPv6 without brackets).
pub open spec fn host_text(h: HostView) -> Seq<char> {
    match h {
        HostView::Domain(s) => s,
        HostView::Ipv4(s) => s,
        HostView::Ipv6(s) => s,
    }
}

/// A host with surrounding `[` and `]` removed.
pub open spec fn strip_brackets(s: Seq<char>) -> Seq<char> {
    unbracket_end(unbracket_start(s))
}

pub open spec fn unbracket_start(s: Seq<char>) -> Seq<char>
    decreases s.len(),
{
    if s.len() > 0 && (s[0] == '[' || s[0] == ']') {
        unbracket_start(s.drop_first())
    } else {
        s
    }
}

pub open spec fn unbracket_end(s: Seq<char>) -> Seq<char>
    decreases s.len(),
{
    if s.len() > 0 && (s.last() == '[' || s.last() == ']') {
        unbracket_end(s.drop_last())
    } else {
        s
    }
}

fn strip_brackets_of(v: &Vec<char>) -> (r: Vec<char>)
    ensures
        r@ == strip_brackets(v@),
{
    let mut start: usize = 0;
    assert(v@.subrange(0, v.len() as int) =~= v@);
    while start < v.len() && (v[start] == '[' || v[start] == ']')
        invariant
            start <= v.len(),
            unbracket_start(v@) == unbracket_start(v@.subrange(start as int, v.len() as int)),
        decreases v.len() - start,
    {
        let ghost u = v@.subrange(start as int, v.len() as int);
        assert(u.drop_first() =~= v@.subrange(start + 1, v.len() as int));
        start = start + 1;
    }
    let ghost t = v@.subrange(start as int, v.len() as int);
    let mut end: usize = v.len();
    while end > start && (v[end - 1] == '[' || v[end - 1] == ']')
        invariant
            start <= end <= v.len(),
            t == v@.subrange(start as int, v.len() as int),
            unbracket_end(t) == unbracket_end(v@.subrange(start as int, end as int)),
        decreases end,
    {
        let ghost u = v@.subrange(start as int, end as int);
        assert(u.drop_last() =~= v@.subrange(start as int, end - 1));
        end = end - 1;
    }
    crate::text::slice_chars(v, start, end)
}

/// A Host header names the configured origin: the same host ignoring case and brackets,
/// and the same port once default ports are filled in.
pub open spec fn authority_matches_spec(host: Seq<char>, port: Option<u16>, configured: UrlView) -> bool {
    match configured.host {
        None => false,
        Some(h) => same_ignoring_case(strip_brackets(host), host_text(h)) && effective_port_spec(
            port,
            configured.scheme,
        ) == effective_port_spec(configured.port, configured.scheme),
    }
}

fn host_text_of(h: &UrlHost) -> (r: &str)
    ensures
        r@ == host_text(host_view(*h)),
{
    match h {
        UrlHost::Domain(s) => s.as_str(),
        UrlHost::Ipv4(s) => s.as_str(),
        UrlHost::Ipv6(s) => s.as_str(),
    }
}

pub fn authority_matches(host: &str, port: Option<u16>, configured: &UrlParts) -> (r: bool)
    ensures
        r == authority_matches_spec(host@, port, url_view(*configured)),
{
    let h = match &configured.host {
        None => {
            return false;
        },
        Some(h) => h,
    };
    let stripped = string_from_chars(&strip_brackets_of(&chars_of(host)));
    eq_ignore_case(stripped.as_str(), host_text_of(h)) && effective_port(
        port,
        configured.scheme.as_str(),
    ) == effective_port(configured.port, configured.scheme.as_str())
}

/// Two origins are the same: scheme and host equal ignoring case, and the same effective port.
pub open spec fn same_origin_spec(left: UrlView, right: UrlView) -> bool {
    same_ignoring_case(left.scheme, right.scheme) && (left.host_str matches Some(l) && (
    right.host_str matches Some(r) && same_ignoring_case(l, r))) && effective_port_spec(
        left.port,
        left.scheme,
    ) == effective_port_spec(right.port, right.scheme)
}

pub fn same_origin(left: &UrlParts, right: &UrlParts) -> (r: bool)
    ensures
        r == same_origin_spec(url_view(*left), url_view(*right)),
{
    let hosts = match (&left.host_str, &right.host_str) {
        (Some(l), Some(r)) => eq_ignore_case(l.as_str(), r.as_str()),
        _ => false,
    };
    eq_ignore_case(left.scheme.as_str(), right.scheme.as_str()) && hosts && effective_port(
        left.port,
        left.scheme.as_str(),
    ) == effective_port(right.port, right.scheme.as_str())
}

/// An origin is only scheme, host and port: no user, password, query or fragment, path `/`.
pub open spec fn origin_only(u: UrlView) -> bool {
    u.username.len() == 0 && u.password is None && u.path == "/"@ && u.query is None && u.fragment
        is None && u.host_str is Some
}

pub fn is_origin_only(origin: &UrlParts) -> (r: bool)
    ensures
        r == origin_only(url_view(*origin)),
{
    chars_of(origin.username.as_str()).len() == 0 && origin.password.is_none() && str_eq(
        origin.path.as_str(),
        "/",
    ) && origin.query.is_none() && origin.fragment.is_none() && origin.host_str.is_some()
}

/// The Host header value that names the configured origin: its host (IPv6 in brackets),
/// with `:port` when the URL states a non-default port.
pub open spec fn canonical_authority_spec(h: HostView, port: Option<u16>) -> Seq<char> {
    let host = match h {
        HostView::Domain(s) => s,
        HostView::Ipv4(s) => s,
        HostView::Ipv6(s) => seq!['['] + s + seq![']'],
    };
    match port {
        Some(p) => host + seq![':'] + decimal(p as nat),
        None => host,
    }
}

pub fn canonical_authority(origin: &UrlParts) -> (r: Option<String>)
    ensures
        match url_view(*origin).host {
            Some(h) => (r matches Some(s) && s@ == canonical_authority_spec(h, origin.port)),
            None => r is None,
        },
{
    let h = match &origin.host {
        None => {
            return None;
        },
        Some(h) => h,
    };
    proof {
        reveal_strlit("[");
        reveal_strlit("]");
        reveal_strlit(":");
    }
    let mut host = match h {
        UrlHost::Domain(s) => s.as_str().to_owned(),
        UrlHost::Ipv4(s) => s.as_str().to_owned(),
        UrlHost::Ipv6(s) => {
            let mut t = "[".to_owned();
            t.append(s.as_str());
            t.append("]");
            t
        },
    };
    match origin.port {
        Some(p) => {
            host.append(":");
            let digits = string_from_chars(&decimal_chars(p as u64));
            host.append(digits.as_str());
            Some(host)
        },
        None => Some(host),
    }
}

/// The HTTP headers of an MCP request that its checks read.
pub struct PublicRequest {
    /// Each Host header value, as text when it is visible ASCII.
    pub hosts: Vec<Option<String>>,
    /// The request URI's authority, when the URI carries one.
    pub uri_authority: Option<(String, Option<u16>)>,
    /// Each Origin header value, as text when it is visible ASCII.
    pub origins: Vec<Option<String>>,
    /// Each distinct header name, with how many values it has.
    pub names: Vec<(String, usize)>,
}

pub open spec fn host_refused() -> ErrorView {
    error_view(403, "origin_not_permitted"@, "The request Host is not permitted for this service."@)
}

pub open spec fn origin_refused() -> ErrorView {
    error_view(
        403,
        "origin_not_permitted"@,
        "The request Origin is not permitted for this service."@,
    )
}

/// The authority a request names: its one Host header, or the URI's when there is none.
pub open spec fn supplied_authority(req: PublicRequest) -> Option<(Seq<char>, Option<u16>)> {
    if req.hosts@.len() == 1 {
        match req.hosts@[0] {
            Some(t) => parsed_authority(t@),
            None => None,
        }
    } else if req.hosts@.len() == 0 {
        match req.uri_authority {
            Some((h, p)) => Some((h@, p)),
            None => None,
        }
    } else {
        None
    }
}

/// Some header whose name starts with `mcp-` appears more than once.
pub open spec fn repeated_mcp_header(names: Seq<(String, usize)>) -> bool {
    exists|i: int| 0 <= i < names.len() && has_prefix((#[trigger] names[i]).0@, "mcp-"@) && names[i].1 >= 2
}

/// Why a request may not use the MCP endpoint of the service at `public_origin`, or `None`.
pub open spec fn public_request_refusal(req: PublicRequest, public_origin: Seq<char>) -> Option<ErrorView> {
    match parsed_url(public_origin) {
        None => Some(internal_view()),
        Some(configured) => match supplied_authority(req) {
            None => Some(
                bad_request_view(
                    "Supply exactly one valid Host header for the configured service."@,
                ),
            ),
            Some((h, p)) => if !authority_matches_spec(h, p, configured) {
                Some(host_refused())
            } else if req.origins@.len() > 1 {
                Some(bad_request_view("Supply at most one valid Origin header."@))
            } else if req.origins@.len() == 1 && !(req.origins@[0] matches Some(t) && (parsed_url(
                t@,
            ) matches Some(o) && origin_only(o) && same_origin_spec(o, configured))) {
                Some(origin_refused())
            } else if repeated_mcp_header(req.names@) {
                Some(bad_request_view("Each MCP protocol metadata header may appear only once."@))
            } else {
                None
            },
        },
    }
}

fn has_repeated_mcp_header(names: &Vec<(String, usize)>) -> (r: bool)
    ensures
        r == repeated_mcp_header(names@),
{
    let mut i: usize = 0;
    while i < names.len()
        invariant
            i <= names.len(),
            forall|k: int| 0 <= k < i ==> !(has_prefix((#[trigger] names@[k]).0@, "mcp-"@) && names@[k].1 >= 2),
        decreases names.len() - i,
    {
        let (name, count) = (&names[i].0, names[i].1);
        if starts_with(name.as_str(), "mcp-") && count >= 2 {
            assert(has_prefix(names@[i as int].0@, "mcp-"@) && names@[i as int].1 >= 2);
            return true;
        }
        i = i + 1;
    }
    false
}

pub fn validate_public_request(req: &PublicRequest, public_origin: &str) -> (r: Result<(), AppError>)
    ensures
        match public_request_refusal(*req, public_origin@) {
            None => r is Ok,
            Some(v) => (r matches Err(e) && e@ == v),
        },
{
    let configured = match url_parse(public_origin) {
        None => {
            return Err(AppError::internal());
        },
        Some(c) => c,
    };
    let supplied: Option<(String, Option<u16>)> = if req.hosts.len() == 1 {
        match &req.hosts[0] {
            Some(t) => authority_parse(t.as_str()),
            None => None,
        }
    } else if req.hosts.len() == 0 {
        match &req.uri_authority {
            Some((h, p)) => Some((h.as_str().to_owned(), *p)),
            None => None,
        }
    } else {
        None
    };
    let (host, port) = match supplied {
        None => {
            return Err(
                AppError::bad_request(
                    "Supply exactly one valid Host header for the configured service.",
                ),
            );
        },
        Some(a) => a,
    };
    if !authority_matches(host.as_str(), port, &configured) {
        return Err(
            AppError::new(
                403,
                "origin_not_permitted",
                "The request Host is not permitted for this service.",
            ),
        );
    }
    if req.origins.len() > 1 {
        return Err(AppError::bad_request("Supply at most one valid Origin header."));
    }
    if req.origins.len() == 1 {
        let accepted = match &req.origins[0] {
            Some(t) => match url_parse(t.as_str()) {
                Some(o) => is_origin_only(&o) && same_origin(&o, &configured),
                None => false,
            },
            None => false,
        };
        if !accepted {
            return Err(
                AppError::new(
                    403,
                    "origin_not_permitted",
                    "The request Origin is not permitted for this service.",
                ),
            );
        }
    }
    if has_repeated_mcp_header(&req.names) {
        return Err(AppError::bad_request("Each MCP protocol metadata header may appear only once."));
    }
    Ok(())
}

/// How the MCP endpoint treats a request before authenticating it.
#[derive(Debug)]
pub enum McpGate {
    /// Go on to authenticate the coordinator credentials.
    Authenticate,
    /// Refuse with this error.
    Refuse(AppError),
    /// Refuse as an authentication failure, with the bearer challenge and help link.
    Challenge(AppError),
}

/// The MCP endpoint takes no query parameters and no cookies: browser sessions never
/// reach it.
pub open spec fn mcp_gate_spec(
    req: PublicRequest,
    public_origin: Seq<char>,
    has_query: bool,
    has_cookie: bool,
) -> (int, Option<ErrorView>) {
    match public_request_refusal(req, public_origin) {
        Some(v) => (1, Some(v)),
        None => if has_query {
            (1, Some(bad_request_view("The MCP endpoint does not accept query parameters."@)))
        } else if has_cookie {
            (2, Some(auth_required_view()))
        } else {
            (0, None)
        },
    }
}

pub fn mcp_request_gate(req: &PublicRequest, public_origin: &str, has_query: bool, has_cookie: bool) -> (r:
    McpGate)
    ensures
        ({
            let (kind, err) = mcp_gate_spec(*req, public_origin@, has_query, has_cookie);
            match r {
                McpGate::Authenticate => kind == 0,
                McpGate::Refuse(e) => kind == 1 && err == Some(e@),
                McpGate::Challenge(e) => kind == 2 && err == Some(e@),
            }
        }),
{
    if let Err(e) = validate_public_request(req, public_origin) {
        return McpGate::Refuse(e);
    }
    if has_query {
        return McpGate::Refuse(AppError::bad_request("The MCP endpoint does not accept query parameters."));
    }
    if has_cookie {
        return McpGate::Challenge(AppError::auth_required());
    }
    McpGate::Authenticate
}

/// After authentication, the stateless transport accepts POST only; the refusal is
/// answered with `Allow: POST`.
pub fn mcp_method_gate(is_post: bool) -> (r: Result<(), AppError>)
    ensures
        r is Ok <==> is_post,
        r matches Err(e) ==> e@ == error_view(
            405,
            "method_not_allowed"@,
            "The MCP endpoint accepts authenticated POST requests only."@,
        ),
{
    if is_post {
        Ok(())
    } else {
        Err(
            AppError::new(
                405,
                "method_not_allowed",
                "The MCP endpoint accepts authenticated POST requests only.",
            ),
        )
    }
}

/// The largest REST result an MCP tool call relays.
pub const MAX_REST_RESULT_BYTES: usize = 1048576;

/// The length of a tool's collected output after one more body frame, or why the output
/// is unavailable (the operation may still have committed).
pub fn tool_output_length(len: usize, frame: usize) -> (r: Result<usize, String>)
    ensures
        len + frame <= MAX_REST_RESULT_BYTES ==> r == Ok::<usize, String>((len + frame) as usize),
        len + frame > MAX_REST_RESULT_BYTES ==> (r matches Err(m) && m@ == (if len + frame > usize::MAX {
            "The service response exceeded the MCP output limit. The operation may have committed."@
        } else {
            "The service response exceeded the 1 MiB REST-result limit for MCP tools. The operation may have committed."@
        })),
{
    let total = match len.checked_add(frame) {
        Some(t) => t,
        None => {
            return Err(
                "The service response exceeded the MCP output limit. The operation may have committed.".to_string(),
            );
        },
    };
    if total > MAX_REST_RESULT_BYTES {
        return Err(
            "The service response exceeded the 1 MiB REST-result limit for MCP tools. The operation may have committed.".to_string(),
        );
    }
    Ok(total)
}

/// Headers the MCP library receives from a client request: `accept`, `content-type` and
/// those whose (lowercase) name starts with `mcp-`.
pub open spec fn sdk_header(name: Seq<char>) -> bool {
    name == "accept"@ || name == "content-type"@ || has_prefix(name, "mcp-"@)
}

pub fn forwards_to_sdk(name: &str) -> (r: bool)
    ensures
        r == sdk_header(name@),
{
    str_eq(name, "accept") || str_eq(name, "content-type") || starts_with(name, "mcp-")
}

/// The headers among `h` that the MCP library receives, in order.
pub open spec fn sdk_selected(h: Seq<(Seq<char>, Seq<char>)>) -> Seq<(Seq<char>, Seq<char>)>
    decreases h.len(),
{
    if h.len() == 0 {
        seq![]
    } else if sdk_header(h.last().0) {
        sdk_selected(h.drop_last()).push(h.last())
    } else {
        sdk_selected(h.drop_last())
    }
}

pub open spec fn header_pairs(v: Seq<(String, String)>) -> Seq<(Seq<char>, Seq<char>)> {
    v.map_values(|p: (String, String)| (p.0@, p.1@))
}

/// Whether a request carries an `origin` header.
pub open spec fn has_origin(h: Seq<(Seq<char>, Seq<char>)>) -> bool {
    exists|i: int| 0 <= i < h.len() && #[trigger] h[i].0 == "origin"@
}

/// The headers a request hands the MCP library, from its (lowercase) header pairs: `host`
/// set to the configured origin's authority, `origin` set to the configured origin when the
/// request had one, then its `accept`, `content-type` and `mcp-*` headers; no credential,
/// cookie or other header. `None` when the configured origin has no host.
pub fn sanitized_sdk_headers(headers: &Vec<(String, String)>, public_origin: &str) -> (r: Option<
    Vec<(String, String)>,
>)
    ensures
        match parsed_url(public_origin@) {
            Some(u) => match u.host {
                Some(h) => (r matches Some(v) && header_pairs(v@) == seq![
                    ("host"@, canonical_authority_spec(h, u.port)),
                ] + (if has_origin(header_pairs(headers@)) {
                    seq![("origin"@, public_origin@)]
                } else {
                    seq![]
                }) + sdk_selected(header_pairs(headers@))),
                None => r is None,
            },
            None => r is None,
        },
{
    let origin = match url_parts(public_origin) {
        Some(o) => o,
        None => {
            return None;
        },
    };
    let host = match canonical_authority(&origin) {
        Some(h) => h,
        None => {
            return None;
        },
    };
    let ghost hv = header_pairs(headers@);
    let mut selected: Vec<(String, String)> = Vec::new();
    selected.push(("host".to_owned(), host));
    let mut seen_origin = false;
    let mut i: usize = 0;
    while i < headers.len()
        invariant
            i <= headers.len(),
            hv == header_pairs(headers@),
            seen_origin == exists|k: int| 0 <= k < i && #[trigger] hv[k].0 == "origin"@,
        decreases headers.len() - i,
    {
        let is_origin = str_eq(headers[i].0.as_str(), "origin");
        assert(hv[i as int].0 == headers@[i as int].0@);
        if is_origin {
            seen_origin = true;
        }
        proof {
            if !is_origin && !seen_origin {
                assert forall|k: int| 0 <= k < i + 1 implies #[trigger] hv[k].0 != "origin"@ by {
                    if k < i {
                        assert(!(hv[k].0 == "origin"@));
                    }
                }
            }
        }
        i = i + 1;
    }
    let ghost head = header_pairs(selected@);
    if seen_origin {
        selected.push(("origin".to_owned(), public_origin.to_owned()));
    }
    let ghost start = header_pairs(selected@);
    let mut j: usize = 0;
    while j < headers.len()
        invariant
            j <= headers.len(),
            hv == header_pairs(headers@),
            header_pairs(selected@) == start + sdk_selected(hv.take(j as int)),
        decreases headers.len() - j,
    {
        proof {
            assert(hv.take(j + 1).drop_last() =~= hv.take(j as int));
            assert(hv.take(j + 1).last() == hv[j as int]);
        }
        if forwards_to_sdk(headers[j].0.as_str()) {
            let pair = (headers[j].0.clone(), headers[j].1.clone());
            let ghost before = header_pairs(selected@);
            selected.push(pair);
            proof {
                assert(header_pairs(selected@) =~= before.push(hv[j as int]));
            }
        }
        j = j + 1;
    }
    proof {
        assert(hv.take(headers.len() as int) =~= hv);
        assert(seen_origin == has_origin(hv));
        if seen_origin {
            assert(start =~= head + seq![("origin"@, public_origin@)]);
        } else {
            assert(start =~= head + Seq::<(Seq<char>, Seq<char>)>::empty());
        }
    }
    Some(selected)
}

/// Coordinator credentials and cookies never reach the MCP library.
pub proof fn law_credentials_never_reach_sdk()
    ensures
        !sdk_header("authorization"@),
        !sdk_header(crate::auth::SESSION_HEADER@),
        !sdk_header(crate::auth::PROOF_HEADER@),
        !sdk_header("cookie"@),
{
    reveal_strlit("authorization");
    reveal_strlit("cookie");
    reveal_strlit("accept");
    reveal_strlit("content-type");
    reveal_strlit("mcp-");
    reveal_strlit("x-coordinator-session");
    reveal_strlit("x-coordinator-session-proof");
    assert(!has_prefix("authorization"@, "mcp-"@)) by {
        assert("authorization"@.subrange(0, 4)[0] != "mcp-"@[0]);
    }
    assert(!has_prefix("cookie"@, "mcp-"@)) by {
        assert("cookie"@.subrange(0, 4)[0] != "mcp-"@[0]);
    }
    assert(!has_prefix(crate::auth::SESSION_HEADER@, "mcp-"@)) by {
        assert(crate::auth::SESSION_HEADER@.subrange(0, 4)[0] != "mcp-"@[0]);
    }
    assert(!has_prefix(crate::auth::PROOF_HEADER@, "mcp-"@)) by {
        assert(crate::auth::PROOF_HEADER@.subrange(0, 4)[0] != "mcp-"@[0]);
    }
    assert("authorization"@.len() != "accept"@.len());
    assert("authorization"@.len() != "content-type"@.len());
    assert("cookie"@ != "accept"@) by {
        assert("cookie"@[0] != "accept"@[0]);
    }
    assert("cookie"@.len() != "content-type"@.len());
    assert(crate::auth::SESSION_HEADER@.len() != "accept"@.len());
    assert(crate::auth::SESSION_HEADER@.len() != "content-type"@.len());
    assert(crate::auth::PROOF_HEADER@.len() != "accept"@.len());
    assert(crate::auth::PROOF_HEADER@.len() != "content-type"@.len());
}

} // verus!
