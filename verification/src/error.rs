//! The service's sanitized error: an HTTP status, a stable code, a public
//! message and small string details. Only sanitized public text is retained.
use vstd::prelude::*;

use crate::history::JsonTree;

verus! {

/// What an [`AppError`] says, as plain values.
pub struct ErrorView {
    pub status: u16,
    pub code: Seq<char>,
    pub message: Seq<char>,
    pub details: Seq<(Seq<char>, DetailValueView)>,
}

/// The value of one detail entry: a text, a flag, a number or a list of texts.
#[derive(Debug, PartialEq, Eq)]
pub enum DetailValue {
    Text(String),
    Flag(bool),
    Number(i64),
    Texts(Vec<String>),
    /// A JSON value, such as a record's current view.
    Json(JsonTree),
}

/// What a [`DetailValue`] holds, as plain values.
pub enum DetailValueView {
    Text(Seq<char>),
    Flag(bool),
    Number(int),
    Texts(Seq<Seq<char>>),
    Json(JsonTree),
}

impl View for DetailValue {
    type V = DetailValueView;

    open spec fn view(&self) -> DetailValueView {
        match self {
            DetailValue::Text(t) => DetailValueView::Text(t@),
            DetailValue::Flag(b) => DetailValueView::Flag(*b),
            DetailValue::Number(n) => DetailValueView::Number(*n as int),
            DetailValue::Texts(v) => DetailValueView::Texts(v@.map_values(|t: String| t@)),
            DetailValue::Json(t) => DetailValueView::Json(*t),
        }
    }
}

/// One detail entry: a key and its value.
#[derive(Debug)]
pub struct Detail {
    pub key: String,
    pub value: DetailValue,
}

impl View for Detail {
    type V = (Seq<char>, DetailValueView);

    open spec fn view(&self) -> (Seq<char>, DetailValueView) {
        (self.key@, self.value@)
    }
}

/// A sanitized error answer.
#[derive(Debug)]
pub struct AppError {
    pub status: u16,
    pub code: String,
    pub message: String,
    pub details: Vec<Detail>,
}

impl View for AppError {
    type V = ErrorView;

    open spec fn view(&self) -> ErrorView {
        ErrorView {
            status: self.status,
            code: self.code@,
            message: self.message@,
            details: self.details@.map_values(|d: Detail| d@),
        }
    }
}

pub open spec fn error_view(status: u16, code: Seq<char>, message: Seq<char>) -> ErrorView {
    ErrorView { status, code, message, details: seq![] }
}

pub open spec fn bad_request_view(message: Seq<char>) -> ErrorView {
    error_view(400, "invalid_request"@, message)
}

pub open spec fn conflict_view(code: Seq<char>, message: Seq<char>) -> ErrorView {
    error_view(409, code, message)
}

pub open spec fn forbidden_view(message: Seq<char>) -> ErrorView {
    error_view(403, "operation_not_permitted"@, message)
}

pub open spec fn not_found_view() -> ErrorView {
    error_view(404, "record_not_found"@, "The requested record was not found."@)
}

pub open spec fn auth_required_view() -> ErrorView {
    ErrorView {
        status: 401,
        code: "authentication_required"@,
        message: "Sign in or configure this workstation's agent credential, then reconnect."@,
        details: seq![("help_path"@, DetailValueView::Text("/api/v1/help/authentication"@))],
    }
}

pub open spec fn internal_view() -> ErrorView {
    error_view(500, "internal_error"@, "The operation could not be completed."@)
}

pub open spec fn rate_limited_view() -> ErrorView {
    error_view(429, "rate_limited"@, "Too many sign-in attempts. Wait one minute before trying again."@)
}

/// A refusal that only a human may lift: status 403, naming its gate in the details.
pub open spec fn human_gate_view(code: Seq<char>, message: Seq<char>) -> ErrorView {
    ErrorView {
        status: 403,
        code,
        message,
        details: seq![
            ("required_actor"@, DetailValueView::Text("human"@)),
            ("gate"@, DetailValueView::Text(code)),
        ],
    }
}

/// True when a status asks the client to retry later.
pub open spec fn retryable_status(status: u16) -> bool {
    status == 429 || status == 503
}

impl Detail {
    /// A text detail.
    pub fn new(key: &str, value: &str) -> (d: Detail)
        ensures
            d@ == (key@, DetailValueView::Text(value@)),
    {
        Detail { key: key.to_owned(), value: DetailValue::Text(value.to_owned()) }
    }

    /// A flag detail.
    pub fn flag(key: &str, value: bool) -> (d: Detail)
        ensures
            d@ == (key@, DetailValueView::Flag(value)),
    {
        Detail { key: key.to_owned(), value: DetailValue::Flag(value) }
    }

    /// A number detail.
    pub fn number(key: &str, value: i64) -> (d: Detail)
        ensures
            d@ == (key@, DetailValueView::Number(value as int)),
    {
        Detail { key: key.to_owned(), value: DetailValue::Number(value) }
    }

    /// A detail holding a JSON value.
    pub fn json(key: &str, value: JsonTree) -> (d: Detail)
        ensures
            d@ == (key@, DetailValueView::Json(value)),
    {
        Detail { key: key.to_owned(), value: DetailValue::Json(value) }
    }

    /// A detail listing texts.
    pub fn texts(key: &str, values: Vec<String>) -> (d: Detail)
        ensures
            d@ == (key@, DetailValueView::Texts(values@.map_values(|t: String| t@))),
    {
        Detail { key: key.to_owned(), value: DetailValue::Texts(values) }
    }
}

impl AppError {
    /// An error with the given status, code and message and no details.
    pub fn new(status: u16, code: &str, message: &str) -> (e: AppError)
        ensures
            e@ == error_view(status, code@, message@),
    {
        let e = AppError {
            status,
            code: code.to_owned(),
            message: message.to_owned(),
            details: Vec::new(),
        };
        assert(e@.details =~= seq![]);
        e
    }

    /// An error whose message was assembled at run time.
    pub fn with_message(status: u16, code: &str, message: String) -> (e: AppError)
        ensures
            e@ == error_view(status, code@, message@),
    {
        let e = AppError { status, code: code.to_owned(), message, details: Vec::new() };
        assert(e@.details =~= seq![]);
        e
    }

    pub fn bad_request(message: &str) -> (e: AppError)
        ensures
            e@ == bad_request_view(message@),
    {
        AppError::new(400, "invalid_request", message)
    }

    pub fn conflict(code: &str, message: &str) -> (e: AppError)
        ensures
            e@ == conflict_view(code@, message@),
    {
        AppError::new(409, code, message)
    }

    pub fn forbidden(message: &str) -> (e: AppError)
        ensures
            e@ == forbidden_view(message@),
    {
        AppError::new(403, "operation_not_permitted", message)
    }

    pub fn not_found() -> (e: AppError)
        ensures
            e@ == not_found_view(),
    {
        AppError::new(404, "record_not_found", "The requested record was not found.")
    }

    pub fn auth_required() -> (e: AppError)
        ensures
            e@ == auth_required_view(),
    {
        let mut details = Vec::new();
        details.push(Detail::new("help_path", "/api/v1/help/authentication"));
        let e = AppError::new(
            401,
            "authentication_required",
            "Sign in or configure this workstation's agent credential, then reconnect.",
        ).with_details(details);
        assert(e@.details =~= seq![("help_path"@, DetailValueView::Text("/api/v1/help/authentication"@))]);
        e
    }

    /// Replaces the details.
    pub fn with_details(self, details: Vec<Detail>) -> (e: AppError)
        ensures
            e@ == (ErrorView { details: details@.map_values(|d: Detail| d@), ..self@ }),
    {
        AppError { details, ..self }
    }

    pub fn internal() -> (e: AppError)
        ensures
            e@ == internal_view(),
    {
        AppError::new(500, "internal_error", "The operation could not be completed.")
    }

    pub fn rate_limited() -> (e: AppError)
        ensures
            e@ == rate_limited_view(),
    {
        AppError::new(
            429,
            "rate_limited",
            "Too many sign-in attempts. Wait one minute before trying again.",
        )
    }

    /// A refusal reserved to a human operator.
    pub fn human_gate(code: &str, message: &str) -> (e: AppError)
        ensures
            e@ == human_gate_view(code@, message@),
    {
        let mut details = Vec::new();
        details.push(Detail::new("required_actor", "human"));
        details.push(Detail::new("gate", code));
        let e = AppError::new(403, code, message).with_details(details);
        assert(e@.details =~= seq![
            ("required_actor"@, DetailValueView::Text("human"@)),
            ("gate"@, DetailValueView::Text(code@)),
        ]);
        e
    }

    /// True when the client may retry the same request later.
    pub fn retryable(&self) -> (r: bool)
        ensures
            r == retryable_status(self.status),
    {
        self.status == 429 || self.status == 503
    }
}

} // verus!
