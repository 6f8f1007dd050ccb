//! Agent credential attributes: `class` (who drives the credential) and
//! `access` (whether it may change coordination state).
//!
//! `class=supervised` marks credentials held by unattended, supervisor-launched
//! agents; every event records the class so autonomy can be measured from the
//! audit log. `access=read` credentials may inspect state and manage their own
//! session, but every other mutation is refused before it touches coordination
//! state.
use vstd::prelude::*;

use crate::auth::Actor;
use crate::error::{forbidden_view, AppError};
use crate::text::{ends_with, has_prefix, has_suffix, starts_with, str_eq};

verus! {

/// Who drives a credential: a human-attended harness or the supervisor.
#[derive(Clone, Copy, Debug, PartialEq, Eq, Structural)]
pub enum CredentialClass {
    Interactive,
    Supervised,
}

/// Whether a credential may change coordination state.
#[derive(Clone, Copy, Debug, PartialEq, Eq, Structural)]
pub enum CredentialAccess {
    Write,
    Read,
}

/// The attributes stored on one agent credential.
#[derive(Clone, Copy, Debug, PartialEq, Eq, Structural)]
pub struct CredentialAttributes {
    pub class: CredentialClass,
    pub access: CredentialAccess,
}

impl Default for CredentialClass {
    fn default() -> (c: CredentialClass)
        ensures
            c == CredentialClass::Interactive,
    {
        CredentialClass::Interactive
    }
}

impl Default for CredentialAccess {
    fn default() -> (a: CredentialAccess)
        ensures
            a == CredentialAccess::Write,
    {
        CredentialAccess::Write
    }
}

impl Default for CredentialAttributes {
    fn default() -> (a: CredentialAttributes)
        ensures
            a == (CredentialAttributes {
                class: CredentialClass::Interactive,
                access: CredentialAccess::Write,
            }),
    {
        CredentialAttributes { class: CredentialClass::Interactive, access: CredentialAccess::Write }
    }
}

/// The database and wire spelling of a class.
pub open spec fn class_text(c: CredentialClass) -> Seq<char> {
    match c {
        CredentialClass::Interactive => "interactive"@,
        CredentialClass::Supervised => "supervised"@,
    }
}

/// The database and wire spelling of an access level.
pub open spec fn access_text(a: CredentialAccess) -> Seq<char> {
    match a {
        CredentialAccess::Write => "write"@,
        CredentialAccess::Read => "read"@,
    }
}

impl CredentialClass {
    /// True for the default, `interactive`.
    pub fn is_default(&self) -> (r: bool)
        ensures
            r == (*self == CredentialClass::Interactive),
    {
        match self {
            CredentialClass::Interactive => true,
            CredentialClass::Supervised => false,
        }
    }

    /// The database and wire spelling.
    pub fn as_str(self) -> (s: &'static str)
        ensures
            s@ == class_text(self),
    {
        match self {
            CredentialClass::Interactive => "interactive",
            CredentialClass::Supervised => "supervised",
        }
    }
}

impl CredentialAccess {
    /// True for the default, `write`.
    pub fn is_default(&self) -> (r: bool)
        ensures
            r == (*self == CredentialAccess::Write),
    {
        match self {
            CredentialAccess::Write => true,
            CredentialAccess::Read => false,
        }
    }

    /// The database and wire spelling.
    pub fn as_str(self) -> (s: &'static str)
        ensures
            s@ == access_text(self),
    {
        match self {
            CredentialAccess::Write => "write",
            CredentialAccess::Read => "read",
        }
    }
}

/// The attributes decoded from stored columns: only the exact spellings
/// `supervised` and `write` select those values, anything else fails closed.
pub open spec fn decoded_attributes(class: Seq<char>, access: Seq<char>) -> CredentialAttributes {
    CredentialAttributes {
        class: if class == "supervised"@ {
            CredentialClass::Supervised
        } else {
            CredentialClass::Interactive
        },
        access: if access == "write"@ {
            CredentialAccess::Write
        } else {
            CredentialAccess::Read
        },
    }
}

impl CredentialAttributes {
    /// Decodes the stored columns; unknown values fail closed as read-only
    /// interactive so a corrupted row can never gain write authority.
    pub fn from_columns(class: &str, access: &str) -> (a: CredentialAttributes)
        ensures
            a == decoded_attributes(class@, access@),
    {
        let class = if str_eq(class, "supervised") {
            CredentialClass::Supervised
        } else {
            CredentialClass::Interactive
        };
        let access = if str_eq(access, "write") {
            CredentialAccess::Write
        } else {
            CredentialAccess::Read
        };
        CredentialAttributes { class, access }
    }
}

/// The operations a read-only credential may perform: managing its own session.
pub open spec fn read_access_operation(operation: Seq<char>) -> bool {
    operation == "POST /api/v1/sessions"@ || (has_prefix(operation, "POST /api/v1/sessions/"@) && (
    has_suffix(operation, "/close"@) || has_suffix(operation, "/instruction-acknowledgments"@)))
}

/// Operations a read-only credential may perform: managing its own session.
pub fn allowed_for_read_access(operation: &str) -> (r: bool)
    ensures
        r == read_access_operation(operation@),
{
    str_eq(operation, "POST /api/v1/sessions") || (starts_with(operation, "POST /api/v1/sessions/")
        && (ends_with(operation, "/close") || ends_with(
        operation,
        "/instruction-acknowledgments",
    )))
}

/// True when the actor holds a read-only agent credential.
pub open spec fn read_only_actor(actor: Actor) -> bool {
    actor.credential_attributes matches Some(a) && a.access == CredentialAccess::Read
}

pub open spec fn read_only_message() -> Seq<char> {
    "This credential is read-only; it may inspect state and manage its own session only."@
}

/// Refuses a mutation from a read-only credential unless it only manages the
/// caller's own session. Browser sessions and reporters carry no attributes.
pub fn require_write_access(actor: &Actor, operation: &str) -> (r: Result<(), AppError>)
    ensures
        r is Err <==> read_only_actor(*actor) && !read_access_operation(operation@),
        r matches Err(e) ==> e@ == forbidden_view(read_only_message()),
{
    let read_only = match actor.credential_attributes {
        Some(a) => a.access == CredentialAccess::Read,
        None => false,
    };
    if read_only && !allowed_for_read_access(operation) {
        return Err(
            AppError::forbidden(
                "This credential is read-only; it may inspect state and manage its own session only.",
            ),
        );
    }
    Ok(())
}

/// The class recorded on audit events; `None` for human browser sessions and
/// job reporters, which are not agent credentials.
pub fn event_class(actor: &Actor) -> (r: Option<&'static str>)
    ensures
        r is None <==> actor.credential_attributes is None,
        r matches Some(s) ==> s@ == class_text(actor.credential_attributes->0.class),
{
    match actor.credential_attributes {
        Some(a) => Some(a.class.as_str()),
        None => None,
    }
}

} // verus!
