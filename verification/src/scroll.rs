//! Endpoint URLs for scrolling searches.

use vstd::prelude::*;

verus! {

/// Builds the URL for `/_search/scroll` under the given base.
pub fn post(base: String) -> (r: String)
    ensures
        r@ == base@ + "/_search/scroll"@,
{
    let mut url = base;
    url.append("/_search/scroll");
    url
}

/// Builds the URL for `/_search/scroll/{scroll_id}` under the given base.
pub fn post_scroll_id(base: String, scroll_id: String) -> (r: String)
    ensures
        r@ == base@ + "/_search/scroll/"@ + scroll_id@,
{
    let mut url = base;
    url.append("/_search/scroll/");
    url.append(scroll_id.as_str());
    url
}

/// Builds the URL for `/_search/scroll` under the given base.
pub fn get(base: String) -> (r: String)
    ensures
        r@ == base@ + "/_search/scroll"@,
{
    let mut url = base;
    url.append("/_search/scroll");
    url
}

/// Builds the URL for `/_search/scroll/{scroll_id}` under the given base.
pub fn get_scroll_id(base: String, scroll_id: String) -> (r: String)
    ensures
        r@ == base@ + "/_search/scroll/"@ + scroll_id@,
{
    let mut url = base;
    url.append("/_search/scroll/");
    url.append(scroll_id.as_str());
    url
}

} // verus!
