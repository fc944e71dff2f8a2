//! Endpoint URL for verifying a snapshot repository.

use vstd::prelude::*;

verus! {

/// Builds the URL for `/_snapshot/{repository}/_verify` under the given base.
pub fn post_repository(base: &str, repository: &str) -> (r: String)
    ensures
        r@ == base@ + "/_snapshot/"@ + repository@ + "/_verify"@,
{
    let mut url = String::from_str(base);
    url.append("/_snapshot/");
    url.append(repository);
    url.append("/_verify");
    url
}

} // verus!
