//! Endpoint URLs for synced flushes.

use vstd::prelude::*;

verus! {

/// Builds the URL for `/_flush/synced` under the given base.
pub fn post(base: String) -> (r: String)
    ensures
        r@ == base@ + "/_flush/synced"@,
{
    let mut url = base;
    url.append("/_flush/synced");
    url
}

/// Builds the URL for `/_flush/synced` under the given base.
pub fn get(base: String) -> (r: String)
    ensures
        r@ == base@ + "/_flush/synced"@,
{
    let mut url = base;
    url.append("/_flush/synced");
    url
}

/// Builds the URL for `/{index}/_flush/synced` under the given base.
pub fn post_index(base: String, index: String) -> (r: String)
    ensures
        r@ == base@ + "/"@ + index@ + "/_flush/synced"@,
{
    let mut url = base;
    url.append("/");
    url.append(index.as_str());
    url.append("/_flush/synced");
    url
}

/// Builds the URL for `/{index}/_flush/synced` under the given base.
pub fn get_index(base: String, index: String) -> (r: String)
    ensures
        r@ == base@ + "/"@ + index@ + "/_flush/synced"@,
{
    let mut url = base;
    url.append("/");
    url.append(index.as_str());
    url.append("/_flush/synced");
    url
}

} // verus!
