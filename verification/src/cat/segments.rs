//! Endpoint URLs for segment listings.

use vstd::prelude::*;

verus! {

/// Builds the URL for `/_cat/segments` under the given base.
pub fn get(base: &str) -> (r: String)
    ensures
        r@ == base@ + "/_cat/segments"@,
{
    let mut url = String::from_str(base);
    url.append("/_cat/segments");
    url
}

/// Builds the URL for `/_cat/segments/{index}` under the given base.
pub fn get_index(base: &str, index: &str) -> (r: String)
    ensures
        r@ == base@ + "/_cat/segments/"@ + index@,
{
    let mut url = String::from_str(base);
    url.append("/_cat/segments/");
    url.append(index);
    url
}

} // verus!
