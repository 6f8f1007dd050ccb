//! The router-wide gate every request passes: which authentication applies to it, the stable
//! error envelope that replaces a framework rejection, and the security headers every
//! answer carries.
use vstd::prelude::*;

use crate::error::{bad_request_view, error_view, not_found_view, AppError, ErrorView};
use crate::text::{starts_with, str_eq};

verus! {

/// How a request is authenticated before it reaches its route.
#[derive(PartialEq, Eq, Structural, Clone, Copy, Debug)]
pub enum Gate {
    /// A scoped job reporter's own credential.
    Reporter,
    /// A person's browser session or an agent credential.
    Principal,
    /// Nothing: a public page or the sign-in form.
    Public,
}

/// The pages anyone may read.
pub open spec fn public_path(path: Seq<char>) -> bool {
    path == "/"@ || path == "/app.js"@ || path == "/style.css"@ || path == "/healthz"@ || path
        == "/api/v1/info"@ || path == "/api/v1/help/authentication"@
}

/// Reporter paths use reporter credentials; public pages read with GET or HEAD and the
/// sign-in POST need none; everything else, unmatched paths included, needs a principal.
pub open spec fn gate_of(method: Seq<char>, path: Seq<char>) -> Gate {
    if crate::text::has_prefix(path, "/api/v1/reporters/"@) {
        Gate::Reporter
    } else if ((method == "GET"@ || method == "HEAD"@) && public_path(path)) || (method
        == "POST"@ && path == "/api/v1/auth/login"@) {
        Gate::Public
    } else {
        Gate::Principal
    }
}

pub fn request_gate(method: &str, path: &str) -> (r: Gate)
    ensures
        r == gate_of(method@, path@),
{
    if starts_with(path, "/api/v1/reporters/") {
        return Gate::Reporter;
    }
    let read = str_eq(method, "GET") || str_eq(method, "HEAD");
    let public = str_eq(path, "/") || str_eq(path, "/app.js") || str_eq(path, "/style.css")
        || str_eq(path, "/healthz") || str_eq(path, "/api/v1/info") || str_eq(
        path,
        "/api/v1/help/authentication",
    );
    let login = str_eq(method, "POST") && str_eq(path, "/api/v1/auth/login");
    if (read && public) || login {
        Gate::Public
    } else {
        Gate::Principal
    }
}

/// The envelope that replaces a client-error answer not already in JSON, so that a
/// framework's parser message never reaches the caller; `None` for any other answer.
pub open spec fn envelope_for(status: u16, is_json: bool) -> Option<ErrorView> {
    if !(400 <= status <= 499) || is_json {
        None
    } else if status == 413 {
        Some(error_view(413, "payload_too_large"@, "The request body exceeds 256 KiB."@))
    } else if status == 405 {
        Some(
            error_view(
                405,
                "method_not_allowed"@,
                "This HTTP method is not available for that route."@,
            ),
        )
    } else if status == 404 {
        Some(not_found_view())
    } else {
        Some(bad_request_view("The request body, path, or query could not be decoded."@))
    }
}

pub fn rejection_envelope(status: u16, is_json: bool) -> (r: Option<AppError>)
    ensures
        match envelope_for(status, is_json) {
            None => r is None,
            Some(v) => (r matches Some(e) && e@ == v),
        },
{
    if !(400 <= status && status <= 499) || is_json {
        return None;
    }
    if status == 413 {
        Some(AppError::new(413, "payload_too_large", "The request body exceeds 256 KiB."))
    } else if status == 405 {
        Some(
            AppError::new(
                405,
                "method_not_allowed",
                "This HTTP method is not available for that route.",
            ),
        )
    } else if status == 404 {
        Some(AppError::not_found())
    } else {
        Some(AppError::bad_request("The request body, path, or query could not be decoded."))
    }
}

pub open spec fn policy_text() -> Seq<char> {
    "default-src 'none'; script-src 'self'; style-src 'self'; connect-src 'self'; img-src 'self'; base-uri 'none'; frame-ancestors 'none'; form-action 'self'; object-src 'none'"@
}

/// The headers every answer carries, and strict transport security behind HTTPS cookies.
pub open spec fn security_header_list(secure: bool) -> Seq<(Seq<char>, Seq<char>)> {
    seq![
        ("cache-control"@, "no-store"@),
        ("x-content-type-options"@, "nosniff"@),
        ("x-frame-options"@, "DENY"@),
        ("referrer-policy"@, "no-referrer"@),
        ("permissions-policy"@, "camera=(), microphone=(), geolocation=()"@),
        ("content-security-policy"@, policy_text()),
    ] + if secure {
        seq![("strict-transport-security"@, "max-age=31536000"@)]
    } else {
        seq![]
    }
}

pub open spec fn pair_views(v: Seq<(String, String)>) -> Seq<(Seq<char>, Seq<char>)> {
    v.map_values(|p: (String, String)| (p.0@, p.1@))
}

fn push_pair(v: &mut Vec<(String, String)>, name: &str, value: &str)
    ensures
        pair_views(final(v)@) == pair_views(old(v)@).push((name@, value@)),
{
    v.push((name.to_owned(), value.to_owned()));
    assert(pair_views(final(v)@) =~= pair_views(old(v)@).push((name@, value@)));
}

pub fn security_headers(secure: bool) -> (r: Vec<(String, String)>)
    ensures
        pair_views(r@) == security_header_list(secure),
{
    let mut v: Vec<(String, String)> = Vec::new();
    push_pair(&mut v, "cache-control", "no-store");
    push_pair(&mut v, "x-content-type-options", "nosniff");
    push_pair(&mut v, "x-frame-options", "DENY");
    push_pair(&mut v, "referrer-policy", "no-referrer");
    push_pair(&mut v, "permissions-policy", "camera=(), microphone=(), geolocation=()");
    push_pair(
        &mut v,
        "content-security-policy",
        "default-src 'none'; script-src 'self'; style-src 'self'; connect-src 'self'; img-src 'self'; base-uri 'none'; frame-ancestors 'none'; form-action 'self'; object-src 'none'",
    );
    if secure {
        push_pair(&mut v, "strict-transport-security", "max-age=31536000");
    }
    assert(pair_views(v@) =~= security_header_list(secure));
    v
}

/// No request reaches a private route unauthenticated: only the six public pages read with
/// GET or HEAD, and the sign-in form, go through without a credential.
pub proof fn law_only_public_pages_skip_authentication(method: Seq<char>, path: Seq<char>)
    requires
        gate_of(method, path) == Gate::Public,
    ensures
        ((method == "GET"@ || method == "HEAD"@) && public_path(path)) || (method == "POST"@
            && path == "/api/v1/auth/login"@),
{
}

} // verus!
