//! Principals, credential verifiers and the request-authentication rules that
//! decide which credential a request presents.
use vstd::prelude::*;
use vstd::string::StringSliceAdditionalSpecFns;

use crate::credential_attributes::CredentialAttributes;
use crate::crypto::{constant_eq, digest, text_digest};
use crate::error::{auth_required_view, bad_request_view, forbidden_view, AppError, ErrorView};
use crate::text::{
    byte_is_ascii_alnum, byte_is_ascii_graphic, byte_len, chars_match_at, chars_of,
    contains_control, find_char, first_index, has_control, lemma_first_index,
    has_prefix, slice_chars, split_chars, split_seq, starts_with, str_eq, string_from_chars, trim, trim_chars, trim_str,
    utf8, utf8_len, views,
};

verus! {

pub const SESSION_LIFETIME_MS: i64 = 43_200_000;

pub const SESSION_HEADER: &'static str = "x-coordinator-session";

pub const PROOF_HEADER: &'static str = "x-coordinator-session-proof";

/// An authenticated principal as the service acts for it.
pub struct Actor {
    pub id: String,
    pub name: String,
    pub kind: String,
    pub role: String,
    pub credential_id: Option<String>,
    pub session_id: Option<String>,
    pub credential_attributes: Option<CredentialAttributes>,
}

/// The text of an optional string.
pub open spec fn opt_text(v: Option<String>) -> Option<Seq<char>> {
    match v {
        Some(s) => Some(s@),
        None => None,
    }
}

/// What an [`Actor`] holds, as plain values.
pub struct ActorView {
    pub id: Seq<char>,
    pub name: Seq<char>,
    pub kind: Seq<char>,
    pub role: Seq<char>,
    pub credential_id: Option<Seq<char>>,
    pub session_id: Option<Seq<char>>,
    pub credential_attributes: Option<CredentialAttributes>,
}

impl View for Actor {
    type V = ActorView;

    open spec fn view(&self) -> ActorView {
        ActorView {
            id: self.id@,
            name: self.name@,
            kind: self.kind@,
            role: self.role@,
            credential_id: opt_text(self.credential_id),
            session_id: opt_text(self.session_id),
            credential_attributes: self.credential_attributes,
        }
    }
}

/// A copy of an optional string.
pub fn clone_opt(v: &Option<String>) -> (r: Option<String>)
    ensures
        opt_text(r) == opt_text(*v),
{
    match v {
        Some(s) => Some(s.clone()),
        None => None,
    }
}

impl Clone for Actor {
    fn clone(&self) -> (r: Actor)
        ensures
            r@ == self@,
    {
        Actor {
            id: self.id.clone(),
            name: self.name.clone(),
            kind: self.kind.clone(),
            role: self.role.clone(),
            credential_id: clone_opt(&self.credential_id),
            session_id: clone_opt(&self.session_id),
            credential_attributes: self.credential_attributes,
        }
    }
}

pub open spec fn admin_actor(actor: Actor) -> bool {
    actor.kind@ == "human"@ && actor.role@ == "admin"@
}

pub open spec fn agent_actor(actor: Actor) -> bool {
    actor.kind@ == "agent"@ && actor.role@ == "agent"@ && actor.credential_id is Some
}

/// Requires a human administrator.
pub fn admin(actor: &Actor) -> (r: Result<(), AppError>)
    ensures
        r is Ok <==> admin_actor(*actor),
        r matches Err(e) ==> e@ == forbidden_view(
            "A human administrator is required for credential administration."@,
        ),
{
    if !str_eq(actor.kind.as_str(), "human") || !str_eq(actor.role.as_str(), "admin") {
        return Err(
            AppError::forbidden("A human administrator is required for credential administration."),
        );
    }
    Ok(())
}

/// Requires an agent principal acting through an agent credential.
pub fn agent(actor: &Actor) -> (r: Result<(), AppError>)
    ensures
        r is Ok <==> agent_actor(*actor),
        r matches Err(e) ==> e@ == forbidden_view("This operation requires an agent credential."@),
{
    if !str_eq(actor.kind.as_str(), "agent") || !str_eq(actor.role.as_str(), "agent")
        || actor.credential_id.is_none() {
        return Err(AppError::forbidden("This operation requires an agent credential."));
    }
    Ok(())
}

/// A principal name: 1 to 100 bytes, no surrounding whitespace, no control characters.
pub open spec fn valid_name_text(name: Seq<char>) -> bool {
    &&& name.len() > 0
    &&& crate::text::utf8_len(name) <= 100
    &&& trim(name) == name
    &&& !contains_control(name)
}

pub fn validate_name(name: &str) -> (r: Result<(), AppError>)
    ensures
        r is Ok <==> valid_name_text(name@),
        r matches Err(e) ==> e@ == bad_request_view(
            "name must contain 1 to 100 bytes without control characters or surrounding whitespace."@,
        ),
{
    if name.is_empty() || byte_len(name) > 100 || !str_eq(trim_str(name), name) || has_control(name) {
        return Err(
            AppError::bad_request(
                "name must contain 1 to 100 bytes without control characters or surrounding whitespace.",
            ),
        );
    }
    Ok(())
}

/// Bytes allowed in a bearer token, cookie or proof: visible ASCII except `;` and `,`.
pub open spec fn secret_byte(b: u8) -> bool {
    byte_is_ascii_graphic(b) && b != 0x3b && b != 0x2c
}

/// A secret of 32 to 512 bytes, each one a [`secret_byte`].
pub open spec fn valid_secret_bytes(bytes: Seq<u8>) -> bool {
    32 <= bytes.len() <= 512 && forall|i: int| 0 <= i < bytes.len() ==> secret_byte(#[trigger] bytes[i])
}

pub fn valid_secret(value: &str) -> (r: bool)
    ensures
        r == valid_secret_bytes(value.spec_bytes()),
{
    let bytes = value.as_bytes();
    if bytes.len() < 32 || bytes.len() > 512 {
        return false;
    }
    let mut i: usize = 0;
    while i < bytes.len()
        invariant
            bytes@ == value.spec_bytes(),
            i <= bytes.len(),
            forall|j: int| 0 <= j < i ==> secret_byte(#[trigger] bytes@[j]),
        decreases bytes.len() - i,
    {
        let b = bytes[i];
        if !(0x21 <= b && b <= 0x7e && b != 0x3b && b != 0x2c) {
            return false;
        }
        i = i + 1;
    }
    true
}

/// Bytes allowed in an identifier: ASCII letters, digits, `-`, `_` and `.`.
pub open spec fn id_byte(b: u8) -> bool {
    byte_is_ascii_alnum(b) || b == 0x2d || b == 0x5f || b == 0x2e
}

/// An identifier of 1 to 128 [`id_byte`]s.
pub open spec fn valid_id_bytes(bytes: Seq<u8>) -> bool {
    1 <= bytes.len() <= 128 && forall|i: int| 0 <= i < bytes.len() ==> id_byte(#[trigger] bytes[i])
}

pub fn valid_id(value: &str) -> (r: bool)
    ensures
        r == valid_id_bytes(value.spec_bytes()),
{
    let bytes = value.as_bytes();
    if bytes.len() < 1 || bytes.len() > 128 {
        return false;
    }
    let mut i: usize = 0;
    while i < bytes.len()
        invariant
            bytes@ == value.spec_bytes(),
            i <= bytes.len(),
            forall|j: int| 0 <= j < i ==> id_byte(#[trigger] bytes@[j]),
        decreases bytes.len() - i,
    {
        let b = bytes[i];
        if !((0x30 <= b && b <= 0x39) || (0x61 <= b && b <= 0x7a) || (0x41 <= b && b <= 0x5a)
            || b == 0x2d || b == 0x5f || b == 0x2e) {
            return false;
        }
        i = i + 1;
    }
    true
}

/// The CSRF token bound to a browser cookie.
pub open spec fn csrf_for(cookie: Seq<char>) -> Seq<char> {
    text_digest("coordinator-browser-csrf-v1:"@ + cookie)
}

pub fn csrf_token(cookie: &str) -> (r: String)
    ensures
        r@ == csrf_for(cookie@),
{
    let mut material = "coordinator-browser-csrf-v1:".to_owned();
    material.append(cookie);
    digest(material.as_str())
}


/// The text of each header value, `None` for a value that is not text.
pub open spec fn header_texts(values: Seq<Option<String>>) -> Seq<Option<Seq<char>>> {
    values.map_values(|v: Option<String>| opt_text(v))
}

/// At most one header value, and text: `None` when that fails, else the value if any.
pub open spec fn single_header(values: Seq<Option<Seq<char>>>) -> Option<Option<Seq<char>>> {
    if values.len() == 0 {
        Some(None)
    } else if values.len() == 1 && values[0] is Some {
        Some(Some(values[0]->0))
    } else {
        None
    }
}

/// The one value of a header, refusing a repeated header or one that is not text.
pub fn one_header(values: &Vec<Option<String>>) -> (r: Result<Option<String>, AppError>)
    ensures
        match single_header(header_texts(values@)) {
            Some(v) => (r matches Ok(x) && opt_text(x) == v),
            None => (r matches Err(e) && e@ == auth_required_view()),
        },
{
    if values.len() == 0 {
        return Ok(None);
    }
    if values.len() > 1 {
        return Err(AppError::auth_required());
    }
    match &values[0] {
        Some(v) => Ok(Some(v.clone())),
        None => Err(AppError::auth_required()),
    }
}

/// The browser cookie's name: host-locked when the service is served securely.
pub open spec fn cookie_name(secure: bool) -> Seq<char> {
    if secure {
        "__Host-coordinator"@
    } else {
        "coordinator_local"@
    }
}

/// The value of a `key=value` pair whose trimmed key is `name`.
pub open spec fn pair_value(pair: Seq<char>, name: Seq<char>) -> Option<Seq<char>> {
    let t = trim(pair);
    match first_index(t, '=') {
        Some(i) => if t.subrange(0, i) == name {
            Some(t.subrange(i + 1, t.len() as int))
        } else {
            None
        },
        None => None,
    }
}

/// The values given for `name` by a list of pairs, in order.
pub open spec fn pair_values(pairs: Seq<Seq<char>>, name: Seq<char>) -> Seq<Seq<char>>
    decreases pairs.len(),
{
    if pairs.len() == 0 {
        seq![]
    } else {
        let r = pair_values(pairs.drop_last(), name);
        match pair_value(pairs.last(), name) {
            Some(v) => r.push(v),
            None => r,
        }
    }
}

/// The values given for cookie `name` by `Cookie` header texts, in order.
pub open spec fn cookie_values(headers: Seq<Seq<char>>, name: Seq<char>) -> Seq<Seq<char>>
    decreases headers.len(),
{
    if headers.len() == 0 {
        seq![]
    } else {
        cookie_values(headers.drop_last(), name) + pair_values(split_seq(headers.last(), ';'), name)
    }
}

/// The session cookie of a request: `None` when a `Cookie` header is not text,
/// the cookie is given twice, or its value is not a valid secret.
pub open spec fn session_cookie_of(headers: Seq<Option<Seq<char>>>, secure: bool) -> Option<Option<Seq<char>>> {
    if exists|i: int| 0 <= i < headers.len() && headers[i] is None {
        None
    } else {
        let vs = cookie_values(headers.map_values(|h: Option<Seq<char>>| h->0), cookie_name(secure));
        if vs.len() >= 2 || (vs.len() == 1 && !valid_secret_bytes(utf8(vs[0]))) {
            None
        } else if vs.len() == 1 {
            Some(Some(vs[0]))
        } else {
            Some(None)
        }
    }
}

proof fn lemma_pair_values_prefix(pairs: Seq<Seq<char>>, k: int, name: Seq<char>)
    requires
        0 <= k <= pairs.len(),
    ensures
        pair_values(pairs.subrange(0, k), name).len() <= pair_values(pairs, name).len(),
        pair_values(pairs, name).subrange(0, pair_values(pairs.subrange(0, k), name).len() as int)
            == pair_values(pairs.subrange(0, k), name),
    decreases pairs.len() - k,
{
    if k < pairs.len() {
        lemma_pair_values_prefix(pairs, k + 1, name);
        assert(pairs.subrange(0, k + 1).drop_last() =~= pairs.subrange(0, k));
        let a = pair_values(pairs.subrange(0, k), name);
        let b = pair_values(pairs.subrange(0, k + 1), name);
        let c = pair_values(pairs, name);
        assert(b.subrange(0, a.len() as int) =~= a);
        assert(c.subrange(0, a.len() as int) =~= c.subrange(0, b.len() as int).subrange(
            0,
            a.len() as int,
        ));
    } else {
        assert(pairs.subrange(0, k) =~= pairs);
        let c = pair_values(pairs, name);
        assert(c.subrange(0, c.len() as int) =~= c);
    }
}

proof fn lemma_cookie_values_prefix(headers: Seq<Seq<char>>, k: int, name: Seq<char>)
    requires
        0 <= k <= headers.len(),
    ensures
        cookie_values(headers.subrange(0, k), name).len() <= cookie_values(headers, name).len(),
        cookie_values(headers, name).subrange(
            0,
            cookie_values(headers.subrange(0, k), name).len() as int,
        ) == cookie_values(headers.subrange(0, k), name),
    decreases headers.len() - k,
{
    if k < headers.len() {
        lemma_cookie_values_prefix(headers, k + 1, name);
        assert(headers.subrange(0, k + 1).drop_last() =~= headers.subrange(0, k));
        let a = cookie_values(headers.subrange(0, k), name);
        let b = cookie_values(headers.subrange(0, k + 1), name);
        let c = cookie_values(headers, name);
        assert(b.subrange(0, a.len() as int) =~= a);
        assert(c.subrange(0, a.len() as int) =~= c.subrange(0, b.len() as int).subrange(
            0,
            a.len() as int,
        ));
    } else {
        assert(headers.subrange(0, k) =~= headers);
        let c = cookie_values(headers, name);
        assert(c.subrange(0, c.len() as int) =~= c);
    }
}

/// The value a trimmed `key=value` pair gives for `name`, if it names it.
fn pair_value_of(piece: &Vec<char>, name: &Vec<char>) -> (r: Option<Vec<char>>)
    ensures
        match pair_value(piece@, name@) {
            Some(v) => (r matches Some(x) && x@ == v),
            None => r is None,
        },
{
    let t = trim_chars(piece);
    match find_char(&t, '=') {
        Some(i) => {
            proof {
                lemma_first_index(t@, '=');
            }
            if i == name.len() && chars_match_at(&t, 0, name) {
                Some(slice_chars(&t, i + 1, t.len()))
            } else {
                proof {
                    if t@.subrange(0, i as int) == name@ {
                        assert(i == name.len());
                        assert(t@.subrange(0, name@.len() as int) == name@);
                    }
                }
                None
            }
        },
        None => None,
    }
}

/// The browser session cookie of a request, from its `Cookie` header values:
/// refused when a value is not text, the cookie repeats, or its value is not a
/// valid secret.
pub fn session_cookie(headers: &Vec<Option<String>>, secure: bool) -> (r: Result<Option<String>, AppError>)
    ensures
        match session_cookie_of(header_texts(headers@), secure) {
            Some(v) => (r matches Ok(x) && opt_text(x) == v),
            None => (r matches Err(e) && e@ == auth_required_view()),
        },
{
    let name_str = if secure {
        "__Host-coordinator"
    } else {
        "coordinator_local"
    };
    let name = chars_of(name_str);
    let ghost texts = header_texts(headers@);
    let ghost plain = texts.map_values(|h: Option<Seq<char>>| h->0);
    let mut found: Option<String> = None;
    let mut i: usize = 0;
    while i < headers.len()
        invariant
            i <= headers.len(),
            name@ == cookie_name(secure),
            texts == header_texts(headers@),
            plain == texts.map_values(|h: Option<Seq<char>>| h->0),
            forall|j: int| 0 <= j < i ==> texts[j] is Some,
            cookie_values(plain.subrange(0, i as int), name@).len() <= 1,
            match found {
                Some(f) => cookie_values(plain.subrange(0, i as int), name@) == seq![f@]
                    && valid_secret_bytes(utf8(f@)),
                None => cookie_values(plain.subrange(0, i as int), name@).len() == 0,
            },
        decreases headers.len() - i,
    {
        let text = match &headers[i] {
            Some(t) => t,
            None => {
                assert(texts[i as int] is None);
                return Err(AppError::auth_required());
            },
        };
        let chars = chars_of(text.as_str());
        assert(plain[i as int] == chars@);
        let pieces = split_chars(&chars, ';');
        let ghost prev = cookie_values(plain.subrange(0, i as int), name@);
        let mut j: usize = 0;
        while j < pieces.len()
            invariant
                i < headers.len(),
                j <= pieces.len(),
                name@ == cookie_name(secure),
                texts == header_texts(headers@),
                plain == texts.map_values(|h: Option<Seq<char>>| h->0),
                plain[i as int] == chars@,
                views(pieces@) == split_seq(chars@, ';'),
                prev == cookie_values(plain.subrange(0, i as int), name@),
                prev.len() <= 1,
                (prev + pair_values(views(pieces@).subrange(0, j as int), name@)).len() <= 1,
                match found {
                    Some(f) => prev + pair_values(views(pieces@).subrange(0, j as int), name@)
                        == seq![f@] && valid_secret_bytes(utf8(f@)),
                    None => (prev + pair_values(views(pieces@).subrange(0, j as int), name@)).len()
                        == 0,
                },
            decreases pieces.len() - j,
        {
            let ghost so_far = prev + pair_values(views(pieces@).subrange(0, j as int), name@);
            assert(views(pieces@).subrange(0, j + 1).drop_last() =~= views(pieces@).subrange(
                0,
                j as int,
            ));
            assert(views(pieces@).subrange(0, j + 1).last() == pieces@[j as int]@);
            match pair_value_of(&pieces[j], &name) {
                Some(value) => {
                    let value_text = string_from_chars(&value);
                    if found.is_some() || !valid_secret(value_text.as_str()) {
                        proof {
                            let full = cookie_values(plain, name@);
                            let upto = cookie_values(plain.subrange(0, i + 1), name@);
                            lemma_cookie_values_prefix(plain, i + 1, name@);
                            assert(plain.subrange(0, i + 1).drop_last() =~= plain.subrange(
                                0,
                                i as int,
                            ));
                            assert(plain.subrange(0, i + 1).last() == chars@);
                            lemma_pair_values_prefix(views(pieces@), j + 1, name@);
                            let with_this = prev + pair_values(
                                views(pieces@).subrange(0, j + 1),
                                name@,
                            );
                            assert(with_this == so_far.push(value@));
                            assert(upto.subrange(0, with_this.len() as int) =~= with_this);
                            assert(full.subrange(0, with_this.len() as int) =~= with_this);
                            if found.is_some() {
                                assert(full.len() >= 2);
                            } else {
                                assert(full.len() >= 1);
                                assert(so_far.len() == 0);
                                assert(with_this[0] == value@);
                                assert(full[0] == full.subrange(0, with_this.len() as int)[0]);
                                assert(full[0] == value@);
                                if full.len() == 1 {
                                    assert(!valid_secret_bytes(utf8(full[0])));
                                }
                            }
                            if forall|k: int| 0 <= k < texts.len() ==> texts[k] is Some {
                                assert(session_cookie_of(texts, secure) is None);
                            }
                        }
                        return Err(AppError::auth_required());
                    }
                    found = Some(value_text);
                },
                None => {},
            }
            j = j + 1;
        }
        assert(views(pieces@).subrange(0, pieces@.len() as int) =~= views(pieces@));
        assert(plain.subrange(0, i + 1).drop_last() =~= plain.subrange(0, i as int));
        assert(plain.subrange(0, i + 1).last() == chars@);
        i = i + 1;
    }
    assert(plain.subrange(0, headers@.len() as int) =~= plain);
    Ok(found)
}

/// The credential verifier a request presents. Verifiers keep only digests.
pub enum Credential {
    /// An agent bearer token, with a session identity and proof digest when supplied.
    Bearer { token_hash: String, session: Option<(String, String)>, allow_closed: bool },
    /// A browser session cookie and the CSRF token bound to it.
    Browser { token_hash: String, csrf: String },
}

/// What a [`Credential`] holds, as plain values.
pub enum CredentialView {
    Bearer {
        token_hash: Seq<char>,
        session: Option<(Seq<char>, Seq<char>)>,
        allow_closed: bool,
    },
    Browser { token_hash: Seq<char>, csrf: Seq<char> },
}

impl View for Credential {
    type V = CredentialView;

    open spec fn view(&self) -> CredentialView {
        match self {
            Credential::Bearer { token_hash, session, allow_closed } => CredentialView::Bearer {
                token_hash: token_hash@,
                session: match session {
                    Some(p) => Some((p.0@, p.1@)),
                    None => None,
                },
                allow_closed: *allow_closed,
            },
            Credential::Browser { token_hash, csrf } => CredentialView::Browser {
                token_hash: token_hash@,
                csrf: csrf@,
            },
        }
    }
}

/// An authenticated request: the actor the service verified and the verifier it presented.
pub struct Auth {
    pub actor: Actor,
    credential: Credential,
}

impl Auth {
    /// Binds a verified actor to the credential that authenticated it.
    pub fn new(actor: Actor, credential: Credential) -> (a: Auth)
        ensures
            a.actor_view() == actor@,
            a.credential_view() == credential@,
    {
        Auth { actor, credential }
    }

    pub closed spec fn actor_view(&self) -> ActorView {
        self.actor@
    }

    pub closed spec fn credential_view(&self) -> CredentialView {
        self.credential@
    }

    /// The credential verifier.
    pub fn credential(&self) -> (c: &Credential)
        ensures
            c@ == self.credential_view(),
    {
        &self.credential
    }

    /// True when a browser session cookie authenticated the request.
    pub fn is_browser(&self) -> (r: bool)
        ensures
            r == (self.credential_view() is Browser),
    {
        match &self.credential {
            Credential::Browser { .. } => true,
            Credential::Bearer { .. } => false,
        }
    }

    /// The CSRF token that a browser session returns to the page, if any.
    pub fn browser_csrf(&self) -> (r: Option<String>)
        ensures
            opt_text(r) == match self.credential_view() {
                CredentialView::Browser { csrf, .. } => Some(csrf),
                _ => None,
            },
    {
        match &self.credential {
            Credential::Browser { csrf, .. } => Some(csrf.clone()),
            Credential::Bearer { .. } => None,
        }
    }
}

/// The request parts that authentication reads: method, path and the values
/// of its credential headers (`None` for a value that is not text).
pub struct RequestCredentials {
    pub method: String,
    pub path: String,
    pub authorization: Vec<Option<String>>,
    pub cookie: Vec<Option<String>>,
    pub session: Vec<Option<String>>,
    pub proof: Vec<Option<String>>,
}

/// True when the path reads or closes the session `id` itself, the only
/// operations a closed session may still authenticate.
pub open spec fn closed_session_operation(method: Seq<char>, path: Seq<char>, id: Seq<char>) -> bool {
    (method == "GET"@ && path == "/api/v1/sessions/"@ + id) || (method == "POST"@ && path
        == "/api/v1/sessions/"@ + id + "/close"@)
}

/// The bearer token after the `Bearer ` scheme, when it is a valid secret.
pub open spec fn bearer_token(header: Seq<char>) -> Option<Seq<char>> {
    if has_prefix(header, "Bearer "@) && valid_secret_bytes(
        utf8(header.subrange(7, header.len() as int)),
    ) {
        Some(header.subrange(7, header.len() as int))
    } else {
        None
    }
}

/// The credential a request presents, or `None` when authentication is refused:
/// a header is repeated or not text, both a bearer token and a browser cookie
/// are given, the token is malformed, or a session identity or proof does not
/// fit the credential.
pub open spec fn presented_credential_of(
    method: Seq<char>,
    path: Seq<char>,
    authorization: Seq<Option<Seq<char>>>,
    cookie: Seq<Option<Seq<char>>>,
    session: Seq<Option<Seq<char>>>,
    proof: Seq<Option<Seq<char>>>,
    secure: bool,
) -> Option<CredentialView> {
    let bearer = single_header(authorization);
    let browser = session_cookie_of(cookie, secure);
    let sid = single_header(session);
    let prf = single_header(proof);
    if bearer is None || browser is None || (bearer->0 is Some && browser->0 is Some) || sid is None
        || prf is None {
        None
    } else if bearer->0 is Some {
        match bearer_token(bearer->0->0) {
            None => None,
            Some(token) => {
                let supplied: Option<Option<(Seq<char>, Seq<char>)>> = match (sid->0, prf->0) {
                    (Some(id), Some(p)) => if valid_id_bytes(utf8(id)) && valid_secret_bytes(
                        utf8(p),
                    ) {
                        Some(Some((id, text_digest(p))))
                    } else {
                        None
                    },
                    (None, None) => Some(None),
                    (None, Some(p)) => if method == "POST"@ && path == "/api/v1/sessions"@
                        && valid_secret_bytes(utf8(p)) {
                        Some(None)
                    } else {
                        None
                    },
                    (Some(_), None) => None,
                };
                match supplied {
                    None => None,
                    Some(s) => Some(
                        CredentialView::Bearer {
                            token_hash: text_digest(token),
                            session: s,
                            allow_closed: sid->0 matches Some(id) && closed_session_operation(
                                method,
                                path,
                                id,
                            ),
                        },
                    ),
                }
            },
        }
    } else if browser->0 is Some {
        if sid->0 is Some || prf->0 is Some {
            None
        } else {
            Some(
                CredentialView::Browser {
                    token_hash: text_digest(browser->0->0),
                    csrf: csrf_for(browser->0->0),
                },
            )
        }
    } else {
        None
    }
}

/// True when `path` is the given prefix followed by `id` and then `suffix`.
fn path_is(path: &str, prefix: &str, id: &str, suffix: &str) -> (r: bool)
    ensures
        r == (path@ == prefix@ + id@ + suffix@),
{
    let mut expected = prefix.to_owned();
    expected.append(id);
    expected.append(suffix);
    str_eq(path, expected.as_str())
}

/// Decides which credential a request presents, refusing ambiguous or
/// malformed credential headers before any verifier is looked up.
pub fn presented_credential(req: &RequestCredentials, secure_cookie: bool) -> (r: Result<
    Credential,
    AppError,
>)
    ensures
        match presented_credential_of(
            req.method@,
            req.path@,
            header_texts(req.authorization@),
            header_texts(req.cookie@),
            header_texts(req.session@),
            header_texts(req.proof@),
            secure_cookie,
        ) {
            Some(c) => (r matches Ok(x) && x@ == c),
            None => (r matches Err(e) && e@ == auth_required_view()),
        },
{
    let bearer = one_header(&req.authorization)?;
    let cookie = session_cookie(&req.cookie, secure_cookie)?;
    if bearer.is_some() && cookie.is_some() {
        return Err(AppError::auth_required());
    }
    let session = one_header(&req.session)?;
    let proof = one_header(&req.proof)?;
    match bearer {
        Some(header) => {
            if !starts_with(header.as_str(), "Bearer ") {
                return Err(AppError::auth_required());
            }
            let hv = chars_of(header.as_str());
            proof {
                reveal_strlit("Bearer ");
            }
            let token = string_from_chars(&slice_chars(&hv, 7, hv.len()));
            if !valid_secret(token.as_str()) {
                return Err(AppError::auth_required());
            }
            let supplied: Option<(String, String)> = match (&session, &proof) {
                (Some(id), Some(p)) => {
                    if valid_id(id.as_str()) && valid_secret(p.as_str()) {
                        Some((id.clone(), digest(p.as_str())))
                    } else {
                        return Err(AppError::auth_required());
                    }
                },
                (None, None) => None,
                (None, Some(p)) => {
                    if str_eq(req.method.as_str(), "POST") && str_eq(
                        req.path.as_str(),
                        "/api/v1/sessions",
                    ) && valid_secret(p.as_str()) {
                        None
                    } else {
                        return Err(AppError::auth_required());
                    }
                },
                (Some(_), None) => {
                    return Err(AppError::auth_required());
                },
            };
            let allow_closed = match &session {
                Some(id) => (str_eq(req.method.as_str(), "GET") && path_is(
                    req.path.as_str(),
                    "/api/v1/sessions/",
                    id.as_str(),
                    "",
                )) || (str_eq(req.method.as_str(), "POST") && path_is(
                    req.path.as_str(),
                    "/api/v1/sessions/",
                    id.as_str(),
                    "/close",
                )),
                None => false,
            };
            proof {
                reveal_strlit("");
                assert(("/api/v1/sessions/"@ + session->0@ + ""@) =~= "/api/v1/sessions/"@
                    + session->0@) by {
                    reveal_strlit("");
                };
            }
            Ok(
                Credential::Bearer {
                    token_hash: digest(token.as_str()),
                    session: supplied,
                    allow_closed,
                },
            )
        },
        None => match cookie {
            Some(value) => {
                if session.is_some() || proof.is_some() {
                    return Err(AppError::auth_required());
                }
                Ok(
                    Credential::Browser {
                        token_hash: digest(value.as_str()),
                        csrf: csrf_token(value.as_str()),
                    },
                )
            },
            None => Err(AppError::auth_required()),
        },
    }
}

pub open spec fn safe_method(method: Seq<char>) -> bool {
    method == "GET"@ || method == "HEAD"@ || method == "OPTIONS"@
}

pub open spec fn origin_message() -> Seq<char> {
    "Browser changes must originate from the configured service origin."@
}

pub open spec fn csrf_message() -> Seq<char> {
    "A valid CSRF token is required for browser changes."@
}

/// Browser changes must come from the configured origin: exactly one `Origin`
/// header equal to it.
pub fn require_origin(origin: &Vec<Option<String>>, public_origin: &str) -> (r: Result<(), AppError>)
    ensures
        match single_header(header_texts(origin@)) {
            None => (r matches Err(e) && e@ == auth_required_view()),
            Some(v) => if v == Some(public_origin@) {
                r is Ok
            } else {
                (r matches Err(e) && e@ == forbidden_view(origin_message()))
            },
        },
{
    let supplied = one_header(origin)?;
    match supplied {
        Some(v) => {
            if str_eq(v.as_str(), public_origin) {
                Ok(())
            } else {
                Err(AppError::forbidden("Browser changes must originate from the configured service origin."))
            }
        },
        None => Err(AppError::forbidden("Browser changes must originate from the configured service origin.")),
    }
}

/// What a state-changing browser request must also carry: the configured
/// `Origin` and the CSRF token bound to its cookie. Safe methods and bearer
/// credentials need neither.
pub open spec fn browser_change_result(
    method: Seq<char>,
    credential: CredentialView,
    origin: Seq<Option<Seq<char>>>,
    csrf: Seq<Option<Seq<char>>>,
    public_origin: Seq<char>,
) -> Option<ErrorView> {
    match credential {
        CredentialView::Browser { csrf: expected, .. } => if safe_method(method) {
            None
        } else {
            match single_header(origin) {
                None => Some(auth_required_view()),
                Some(o) => if o != Some(public_origin) {
                    Some(forbidden_view(origin_message()))
                } else {
                    match single_header(csrf) {
                        None => Some(auth_required_view()),
                        Some(t) => if t == Some(expected) {
                            None
                        } else {
                            Some(forbidden_view(csrf_message()))
                        },
                    }
                },
            }
        },
        CredentialView::Bearer { .. } => None,
    }
}

/// Checks origin and CSRF token on a state-changing browser request.
pub fn browser_change_check(
    method: &str,
    credential: &Credential,
    origin: &Vec<Option<String>>,
    csrf: &Vec<Option<String>>,
    public_origin: &str,
) -> (r: Result<(), AppError>)
    ensures
        match browser_change_result(
            method@,
            credential@,
            header_texts(origin@),
            header_texts(csrf@),
            public_origin@,
        ) {
            None => r is Ok,
            Some(v) => (r matches Err(e) && e@ == v),
        },
{
    match credential {
        Credential::Browser { csrf: expected, .. } => {
            if str_eq(method, "GET") || str_eq(method, "HEAD") || str_eq(method, "OPTIONS") {
                return Ok(());
            }
            require_origin(origin, public_origin)?;
            let supplied = one_header(csrf)?;
            match supplied {
                Some(t) => {
                    if constant_eq(t.as_str(), expected.as_str()) {
                        Ok(())
                    } else {
                        Err(AppError::forbidden("A valid CSRF token is required for browser changes."))
                    }
                },
                None => Err(AppError::forbidden("A valid CSRF token is required for browser changes.")),
            }
        },
        Credential::Bearer { .. } => Ok(()),
    }
}

/// Sign-in input bounds: a name of at most 100 bytes and a password of at most 1024 bytes.
pub fn check_login_input(username: &str, password: &str) -> (r: Result<(), AppError>)
    ensures
        r is Ok <==> utf8_len(username@) <= 100 && utf8_len(password@) <= 1024,
        r matches Err(e) ==> e@ == auth_required_view(),
{
    if byte_len(username) > 100 || byte_len(password) > 1024 {
        return Err(AppError::auth_required());
    }
    Ok(())
}

/// An administrator password holds 12 to 1024 bytes.
pub fn check_admin_password(password: &str) -> (r: Result<(), AppError>)
    ensures
        r is Ok <==> 12 <= utf8_len(password@) <= 1024,
        r matches Err(e) ==> e@ == bad_request_view("The password must contain 12 to 1024 bytes."@),
{
    let n = byte_len(password);
    if n < 12 || n > 1024 {
        return Err(AppError::bad_request("The password must contain 12 to 1024 bytes."));
    }
    Ok(())
}

/// A harness session registration.
pub struct NewSession {
    pub session_id: String,
    pub workstation_id: String,
    pub harness: String,
    pub capabilities: Vec<String>,
}

/// A free-text label of 1 to `max` bytes without control characters.
pub open spec fn label_ok(v: Seq<char>, max: nat) -> bool {
    v.len() > 0 && utf8_len(v) <= max && !contains_control(v)
}

/// A registration names its session and workstation with identifiers, a
/// harness of 1 to 200 bytes and at most 64 capabilities of 1 to 128 bytes,
/// none with control characters.
pub open spec fn valid_new_session(input: NewSession) -> bool {
    &&& valid_id_bytes(utf8(input.session_id@))
    &&& valid_id_bytes(utf8(input.workstation_id@))
    &&& label_ok(input.harness@, 200)
    &&& input.capabilities@.len() <= 64
    &&& forall|i: int| 0 <= i < input.capabilities@.len() ==> label_ok(#[trigger] input.capabilities@[i]@, 128)
}

fn label_fits(v: &str, max: usize) -> (r: bool)
    ensures
        r == label_ok(v@, max as nat),
{
    !v.is_empty() && byte_len(v) <= max && !has_control(v)
}

pub fn validate_new_session(input: &NewSession) -> (r: Result<(), AppError>)
    ensures
        r is Ok <==> valid_new_session(*input),
        r matches Err(e) ==> e@ == bad_request_view(
            "Invalid session identity, workstation, harness, or capabilities."@,
        ),
{
    let mut ok = valid_id(input.session_id.as_str()) && valid_id(input.workstation_id.as_str())
        && label_fits(input.harness.as_str(), 200) && input.capabilities.len() <= 64;
    let mut i: usize = 0;
    while ok && i < input.capabilities.len()
        invariant
            i <= input.capabilities.len(),
            ok ==> valid_id_bytes(utf8(input.session_id@)) && valid_id_bytes(utf8(input.workstation_id@))
                && label_ok(input.harness@, 200) && input.capabilities@.len() <= 64,
            ok ==> forall|j: int| 0 <= j < i ==> label_ok(#[trigger] input.capabilities@[j]@, 128),
            !ok ==> !valid_new_session(*input),
        decreases input.capabilities.len() - i,
    {
        if !label_fits(input.capabilities[i].as_str(), 128) {
            ok = false;
        }
        i = i + 1;
    }
    if !ok {
        return Err(AppError::bad_request("Invalid session identity, workstation, harness, or capabilities."));
    }
    Ok(())
}

/// Only the authenticated owning session may inspect or close itself.
pub fn require_own_session(actor: &Actor, id: &str, message: &str) -> (r: Result<(), AppError>)
    ensures
        r is Ok <==> opt_text(actor.session_id) == Some(id@),
        r matches Err(e) ==> e@ == forbidden_view(message@),
{
    match &actor.session_id {
        Some(s) => if str_eq(s.as_str(), id) {
            Ok(())
        } else {
            Err(AppError::forbidden(message))
        },
        None => Err(AppError::forbidden(message)),
    }
}
/// A bearer credential resumes an agent session only with that session's proof, and a
/// closed session only where closed sessions are allowed (inspecting or closing itself).
pub open spec fn agent_session_ok(stored_proof_hash: Seq<char>, proof_hash: Seq<char>, allow_closed: bool, closed: bool) -> bool {
    stored_proof_hash == proof_hash && (allow_closed || !closed)
}

pub fn check_agent_session(stored_proof_hash: &str, proof_hash: &str, allow_closed: bool, closed: bool) -> (r:
    Result<(), AppError>)
    ensures
        r is Ok <==> agent_session_ok(stored_proof_hash@, proof_hash@, allow_closed, closed),
        r matches Err(e) ==> e@ == auth_required_view(),
{
    if !constant_eq(stored_proof_hash, proof_hash) || (!allow_closed && closed) {
        return Err(AppError::auth_required());
    }
    Ok(())
}

/// The digest of the single session-proof header a registration carries, which must be a
/// random secret; the proof itself is never kept.
pub open spec fn session_proof_result(values: Seq<Option<Seq<char>>>) -> Result<Seq<char>, ErrorView> {
    match single_header(values) {
        None => Err(auth_required_view()),
        Some(Some(p)) => if valid_secret_bytes(utf8(p)) {
            Ok(text_digest(p))
        } else {
            Err(bad_request_view("A random session proof is required."@))
        },
        Some(None) => Err(bad_request_view("A random session proof is required."@)),
    }
}

pub fn session_proof(values: &Vec<Option<String>>) -> (r: Result<String, AppError>)
    ensures
        match session_proof_result(header_texts(values@)) {
            Ok(d) => (r matches Ok(x) && x@ == d),
            Err(v) => (r matches Err(e) && e@ == v),
        },
{
    match one_header(values)? {
        Some(p) => if valid_secret(p.as_str()) {
            Ok(digest(p.as_str()))
        } else {
            Err(AppError::bad_request("A random session proof is required."))
        },
        None => Err(AppError::bad_request("A random session proof is required.")),
    }
}

/// An agent session already registered under the requested identity.
pub struct StoredSession {
    pub principal_id: String,
    pub credential_id: String,
    pub proof_hash: String,
    pub workstation_id: String,
    pub harness: String,
    pub capabilities: Vec<String>,
    pub closed: bool,
}

/// Registering an identity again returns the existing session only for the same
/// principal, credential, proof, workstation, harness and capabilities, while it is open.
pub open spec fn session_reuse_error(
    existing: StoredSession,
    actor: Actor,
    proof_hash: Seq<char>,
    input: NewSession,
) -> Option<ErrorView> {
    if existing.principal_id@ != actor.id@ || Some(existing.credential_id@) != opt_text(
        actor.credential_id,
    ) || existing.proof_hash@ != proof_hash || existing.workstation_id@ != input.workstation_id@
        || existing.harness@ != input.harness@ || crate::validation::strings(
        existing.capabilities@,
    ) != crate::validation::strings(input.capabilities@) {
        Some(
            crate::error::conflict_view(
                "session_conflict"@,
                "That session identity is already registered with different parameters."@,
            ),
        )
    } else if existing.closed {
        Some(
            crate::error::conflict_view(
                "session_closed"@,
                "This session is closed. Create a new session identity and proof."@,
            ),
        )
    } else {
        None
    }
}

pub fn check_session_reuse(
    existing: &StoredSession,
    actor: &Actor,
    proof_hash: &str,
    input: &NewSession,
) -> (r: Result<(), AppError>)
    ensures
        match session_reuse_error(*existing, *actor, proof_hash@, *input) {
            None => r is Ok,
            Some(v) => (r matches Err(e) && e@ == v),
        },
{
    let same_credential = match &actor.credential_id {
        Some(c) => str_eq(existing.credential_id.as_str(), c.as_str()),
        None => false,
    };
    if !str_eq(existing.principal_id.as_str(), actor.id.as_str()) || !same_credential
        || !constant_eq(existing.proof_hash.as_str(), proof_hash) || !str_eq(
        existing.workstation_id.as_str(),
        input.workstation_id.as_str(),
    ) || !str_eq(existing.harness.as_str(), input.harness.as_str())
        || !crate::tasks::strings_equal(&existing.capabilities, &input.capabilities) {
        return Err(
            AppError::conflict(
                "session_conflict",
                "That session identity is already registered with different parameters.",
            ),
        );
    }
    if existing.closed {
        return Err(
            AppError::conflict(
                "session_closed",
                "This session is closed. Create a new session identity and proof.",
            ),
        );
    }
    Ok(())
}

/// Argon2id memory cost in KiB (19 MiB), passes and lanes for stored passwords.
pub const ARGON2_MEMORY_KIB: u32 = 19456;

pub const ARGON2_PASSES: u32 = 2;

pub const ARGON2_LANES: u32 = 1;

/// A stored password verifier: Argon2id over the password with a fresh 16-byte random salt.
/// Fails (as an internal error) only when randomness or the hasher is unavailable.
pub fn hash_password(password: &str) -> (r: Result<String, AppError>)
    ensures
        r matches Ok(h) ==> exists|salt: Seq<u8>|
            salt.len() == 16 && crate::crypto::argon2id_phc(
                password.spec_bytes(),
                salt,
                ARGON2_MEMORY_KIB,
                ARGON2_PASSES,
                ARGON2_LANES,
            ) == Some(h@),
        r matches Err(e) ==> e@ == crate::error::internal_view(),
{
    let salt = match crate::crypto::random_bytes(16) {
        Some(b) => b,
        None => {
            return Err(AppError::internal());
        },
    };
    match crate::crypto::argon2id_hash(
        password,
        salt.as_slice(),
        ARGON2_MEMORY_KIB,
        ARGON2_PASSES,
        ARGON2_LANES,
    ) {
        Some(h) => Ok(h),
        None => Err(AppError::internal()),
    }
}

/// Whether `password` matches a stored verifier; a verifier made for this password always
/// matches.
pub fn password_matches(password: &str, stored: &str) -> (r: bool)
    ensures
        r == crate::crypto::argon2id_accepts(
            password.spec_bytes(),
            stored@,
            ARGON2_MEMORY_KIB,
            ARGON2_PASSES,
            ARGON2_LANES,
        ),
        (exists|salt: Seq<u8>|
            crate::crypto::argon2id_phc(
                password.spec_bytes(),
                salt,
                ARGON2_MEMORY_KIB,
                ARGON2_PASSES,
                ARGON2_LANES,
            ) == Some(stored@)) ==> r,
{
    crate::crypto::argon2id_verify(password, stored, ARGON2_MEMORY_KIB, ARGON2_PASSES, ARGON2_LANES)
}

/// Sign-in checks the password against the account's verifier, or against a dummy verifier
/// when no enabled human account has the name, so both cost the same; only an existing
/// account with a matching password signs in.
pub fn check_login_password(password: &str, stored: Option<&str>, dummy: &str) -> (r: Result<
    (),
    AppError,
>)
    ensures
        r is Ok <==> (stored matches Some(h) && crate::crypto::argon2id_accepts(
            password.spec_bytes(),
            h@,
            ARGON2_MEMORY_KIB,
            ARGON2_PASSES,
            ARGON2_LANES,
        )),
        r matches Err(e) ==> e@ == auth_required_view(),
{
    let verified = match stored {
        Some(h) => password_matches(password, h),
        None => password_matches(password, dummy),
    };
    if !verified || stored.is_none() {
        return Err(AppError::auth_required());
    }
    Ok(())
}

/// The `Set-Cookie` value of a browser session: the secure `__Host-` cookie behind HTTPS
/// (marked `Secure`), the local cookie otherwise; lasting the session lifetime, or expiring at
/// once when it is cleared.
pub open spec fn session_cookie_text(secure: bool, token: Seq<char>, clear: bool) -> Seq<char> {
    cookie_name(secure) + "="@ + token + "; Path=/; HttpOnly; SameSite=Strict; Max-Age="@ + (if clear {
        "0"@
    } else {
        "43200"@
    }) + if secure {
        "; Secure"@
    } else {
        ""@
    }
}

pub fn session_cookie_header(secure: bool, token: &str, clear: bool) -> (r: String)
    ensures
        r@ == session_cookie_text(secure, token@, clear),
{
    let name = if secure {
        "__Host-coordinator"
    } else {
        "coordinator_local"
    };
    let age = if clear {
        "0"
    } else {
        "43200"
    };
    let tail = if secure {
        "; Secure"
    } else {
        ""
    };
    assert(name@ == cookie_name(secure));
    let mut r = name.to_owned();
    r.append("=");
    r.append(token);
    r.append("; Path=/; HttpOnly; SameSite=Strict; Max-Age=");
    r.append(age);
    r.append(tail);
    assert(r@ =~= session_cookie_text(secure, token@, clear));
    r
}

/// A closed session may inspect its state or replay its closure, but it cannot authenticate
/// any operation that grants work: a bearer credential is allowed a closed session only for
/// reading or closing that same session.
pub proof fn law_closed_sessions_only_inspect_or_close(
    method: Seq<char>,
    path: Seq<char>,
    authorization: Seq<Option<Seq<char>>>,
    cookie: Seq<Option<Seq<char>>>,
    session: Seq<Option<Seq<char>>>,
    proof: Seq<Option<Seq<char>>>,
    secure: bool,
)
    requires
        presented_credential_of(method, path, authorization, cookie, session, proof, secure) matches Some(
            CredentialView::Bearer { allow_closed, .. },
        ) && allow_closed,
    ensures
        single_header(session) matches Some(Some(id)) && closed_session_operation(method, path, id),
{
}

} // verus!
