//! Paths served by the embedded documentation site.
use vstd::prelude::*;

use crate::text::{has_prefix, starts_with, str_eq};

verus! {

/// The documentation site: `/documentation` itself and everything below it.
pub open spec fn documentation_path(path: Seq<char>) -> bool {
    path == "/documentation"@ || has_prefix(path, "/documentation/"@)
}

pub fn is_path(path: &str) -> (r: bool)
    ensures
        r == documentation_path(path@),
{
    str_eq(path, "/documentation") || starts_with(path, "/documentation/")
}

} // verus!
