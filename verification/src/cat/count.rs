//! Endpoint URLs for document counts.

use vstd::prelude::*;

verus! {

/// Builds the URL for `/_cat/count/{index}` under the given base.
pub fn get_index(base: &str, index: &str) -> (r: String)
    ensures
        r@ == base@ + "/_cat/count/"@ + index@,
{
    let mut url = String::from_str(base);
    url.append("/_cat/count/");
    url.append(index);
    url
}

/// Builds the URL for `/_cat/count` under the given base.
pub fn get(base: &str) -> (r: String)
    ensures
        r@ == base@ + "/_cat/count"@,
{
    let mut url = String::from_str(base);
    url.append("/_cat/count");
    url
}

} // verus!
