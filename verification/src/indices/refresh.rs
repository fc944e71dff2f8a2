//! Endpoint URLs for refreshing indices.

use vstd::prelude::*;

verus! {

/// Builds the URL for `/_refresh` under the given base.
pub fn post(base: String) -> (r: String)
    ensures
        r@ == base@ + "/_refresh"@,
{
    let mut url = base;
    url.append("/_refresh");
    url
}

/// Builds the URL for `/_refresh` under the given base.
pub fn get(base: String) -> (r: String)
    ensures
        r@ == base@ + "/_refresh"@,
{
    let mut url = base;
    url.append("/_refresh");
    url
}

/// Builds the URL for `/{index}/_refresh` under the given base.
pub fn post_index(base: String, index: String) -> (r: String)
    ensures
        r@ == base@ + "/"@ + index@ + "/_refresh"@,
{
    let mut url = base;
    url.append("/");
    url.append(index.as_str());
    url.append("/_refresh");
    url
}

/// Builds the URL for `/{index}/_refresh` under the given base.
pub fn get_index(base: String, index: String) -> (r: String)
    ensures
        r@ == base@ + "/"@ + index@ + "/_refresh"@,
{
    let mut url = base;
    url.append("/");
    url.append(index.as_str());
    url.append("/_refresh");
    url
}

} // verus!
