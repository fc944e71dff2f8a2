//! Endpoint URLs for listing aliases.

use vstd::prelude::*;

verus! {

/// Builds the URL for `/_aliases` under the given base.
pub fn get(base: String) -> (r: String)
    ensures
        r@ == base@ + "/_aliases"@,
{
    let mut url = base;
    url.append("/_aliases");
    url
}

/// Builds the URL for `/{index}/_aliases` under the given base.
pub fn get_index(base: String, index: String) -> (r: String)
    ensures
        r@ == base@ + "/"@ + index@ + "/_aliases"@,
{
    let mut url = base;
    url.append("/");
    url.append(index.as_str());
    url.append("/_aliases");
    url
}

/// Builds the URL for `/{index}/_aliases/{name}` under the given base.
pub fn get_index_name(base: String, index: String, name: String) -> (r: String)
    ensures
        r@ == base@ + "/"@ + index@ + "/_aliases/"@ + name@,
{
    let mut url = base;
    url.append("/");
    url.append(index.as_str());
    url.append("/_aliases/");
    url.append(name.as_str());
    url
}

/// Builds the URL for `/_aliases/{name}` under the given base.
pub fn get_name(base: String, name: String) -> (r: String)
    ensures
        r@ == base@ + "/_aliases/"@ + name@,
{
    let mut url = base;
    url.append("/_aliases/");
    url.append(name.as_str());
    url
}

} // verus!
