//! Endpoint URLs for reading snapshot repositories.

use vstd::prelude::*;

verus! {

/// Builds the URL for `/_snapshot/{repository}` under the given base.
pub fn get_repository(base: &str, repository: &str) -> (r: String)
    ensures
        r@ == base@ + "/_snapshot/"@ + repository@,
{
    let mut url = String::from_str(base);
    url.append("/_snapshot/");
    url.append(repository);
    url
}

/// Builds the URL for `/_snapshot` under the given base.
pub fn get(base: &str) -> (r: String)
    ensures
        r@ == base@ + "/_snapshot"@,
{
    let mut url = String::from_str(base);
    url.append("/_snapshot");
    url
}

} // verus!
