//! Endpoint URLs for searches.

use vstd::prelude::*;

verus! {

/// Builds the URL for `/{index}/{mapping_type}/_search` under the given base.
pub fn get_index_type(base: &str, index: &str, mapping_type: &str) -> (r: String)
    ensures
        r@ == base@ + "/"@ + index@ + "/"@ + mapping_type@ + "/_search"@,
{
    let mut url = String::from_str(base);
    url.append("/");
    url.append(index);
    url.append("/");
    url.append(mapping_type);
    url.append("/_search");
    url
}

/// Builds the URL for `/{index}/{mapping_type}/_search` under the given base.
pub fn post_index_type(base: &str, index: &str, mapping_type: &str) -> (r: String)
    ensures
        r@ == base@ + "/"@ + index@ + "/"@ + mapping_type@ + "/_search"@,
{
    let mut url = String::from_str(base);
    url.append("/");
    url.append(index);
    url.append("/");
    url.append(mapping_type);
    url.append("/_search");
    url
}

/// Builds the URL for `/{index}/_search` under the given base.
pub fn get_index(base: &str, index: &str) -> (r: String)
    ensures
        r@ == base@ + "/"@ + index@ + "/_search"@,
{
    let mut url = String::from_str(base);
    url.append("/");
    url.append(index);
    url.append("/_search");
    url
}

/// Builds the URL for `/_search` under the given base.
pub fn post(base: &str) -> (r: String)
    ensures
        r@ == base@ + "/_search"@,
{
    let mut url = String::from_str(base);
    url.append("/_search");
    url
}

/// Builds the URL for `/{index}/_search` under the given base.
pub fn post_index(base: &str, index: &str) -> (r: String)
    ensures
        r@ == base@ + "/"@ + index@ + "/_search"@,
{
    let mut url = String::from_str(base);
    url.append("/");
    url.append(index);
    url.append("/_search");
    url
}

/// Builds the URL for `/_search` under the given base.
pub fn get(base: &str) -> (r: String)
    ensures
        r@ == base@ + "/_search"@,
{
    let mut url = String::from_str(base);
    url.append("/_search");
    url
}

} // verus!
