//! Endpoint URLs for reading a single alias.

use vstd::prelude::*;

verus! {

/// Builds the URL for `/_alias` under the given base.
pub fn get(base: String) -> (r: String)
    ensures
        r@ == base@ + "/_alias"@,
{
    let mut url = base;
    url.append("/_alias");
    url
}

/// Builds the URL for `/_alias/{name}` under the given base.
pub fn get_name(base: String, name: String) -> (r: String)
    ensures
        r@ == base@ + "/_alias/"@ + name@,
{
    let mut url = base;
    url.append("/_alias/");
    url.append(name.as_str());
    url
}

/// Builds the URL for `/{index}/_alias/{name}` under the given base.
pub fn get_index_name(base: String, index: String, name: String) -> (r: String)
    ensures
        r@ == base@ + "/"@ + index@ + "/_alias/"@ + name@,
{
    let mut url = base;
    url.append("/");
    url.append(index.as_str());
    url.append("/_alias/");
    url.append(name.as_str());
    url
}

/// Builds the URL for `/{index}/_alias` under the given base.
pub fn get_index(base: String, index: String) -> (r: String)
    ensures
        r@ == base@ + "/"@ + index@ + "/_alias"@,
{
    let mut url = base;
    url.append("/");
    url.append(index.as_str());
    url.append("/_alias");
    url
}

} // verus!
