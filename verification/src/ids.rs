//! Identifiers: UUID parsing and canonical text.
use vstd::prelude::*;


verus! {

/// The canonical (lowercase, hyphenated) text of the UUID that `uuid::Uuid::parse_str`
/// reads from `text`, or `None` when it reads none.
pub uninterp spec fn uuid_parse(text: Seq<char>) -> Option<Seq<char>>;

/// `uuid::Uuid::parse_str`, giving the parsed UUID's canonical text
/// (`Display`: 36 lowercase hyphenated characters) or `None` on a parse error.
#[verifier::external_body]
pub(crate) fn uuid_canonical(text: &str) -> (r: Option<String>)
    ensures
        match uuid_parse(text@) {
            Some(c) => (r matches Some(s) && s@ == c),
            None => r is None,
        },
        r matches Some(s) ==> s@.len() == 36,
{
    match uuid::Uuid::parse_str(text) {
        Ok(u) => Some(u.to_string()),
        Err(_) => None,
    }
}

} // verus!
