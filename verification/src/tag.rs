//! The tag-suggestion request rule: the server only answers a prefix of at
//! least three characters, so shorter prefixes get no request at all.

use vstd::prelude::*;
use vstd::string::{StrSliceExecFns, StringExecFns};

verus! {

/// The suggestion URL for the given prefix, or nothing for a prefix the
/// server would not answer (fewer than three characters).
pub fn tag_suggestion_url(prefix: &str) -> (r: Option<String>)
    ensures
        r is Some <==> prefix@.len() >= 3,
        r matches Some(u) ==> u@
            == "https://janitorai.com/hampter/characters/tags/suggest?prefix="@ + prefix@,
{
    if prefix.unicode_len() < 3 {
        return None;
    }
    let mut url = String::from_str("https://janitorai.com/hampter/characters/tags/suggest?prefix=");
    url.append(prefix);
    Some(url)
}

} // verus!
