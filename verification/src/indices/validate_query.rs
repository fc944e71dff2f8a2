//! Endpoint URLs for validating queries.

use vstd::prelude::*;

verus! {

/// Builds the URL for `/_validate/query` under the given base.
pub fn get(base: String) -> (r: String)
    ensures
        r@ == base@ + "/_validate/query"@,
{
    let mut url = base;
    url.append("/_validate/query");
    url
}

/// Builds the URL for `/_validate/query` under the given base.
pub fn post(base: String) -> (r: String)
    ensures
        r@ == base@ + "/_validate/query"@,
{
    let mut url = base;
    url.append("/_validate/query");
    url
}

/// Builds the URL for `/{index}/_validate/query` under the given base.
pub fn get_index(base: String, index: String) -> (r: String)
    ensures
        r@ == base@ + "/"@ + index@ + "/_validate/query"@,
{
    let mut url = base;
    url.append("/");
    url.append(index.as_str());
    url.append("/_validate/query");
    url
}

/// Builds the URL for `/{index}/_validate/query` under the given base.
pub fn post_index(base: String, index: String) -> (r: String)
    ensures
        r@ == base@ + "/"@ + index@ + "/_validate/query"@,
{
    let mut url = base;
    url.append("/");
    url.append(index.as_str());
    url.append("/_validate/query");
    url
}

/// Builds the URL for `/{index}/{mapping_type}/_validate/query` under the given base.
pub fn get_index_type(base: String, index: String, mapping_type: String) -> (r: String)
    ensures
        r@ == base@ + "/"@ + index@ + "/"@ + mapping_type@ + "/_validate/query"@,
{
    let mut url = base;
    url.append("/");
    url.append(index.as_str());
    url.append("/");
    url.append(mapping_type.as_str());
    url.append("/_validate/query");
    url
}

/// Builds the URL for `/{index}/{mapping_type}/_validate/query` under the given base.
pub fn post_index_type(base: String, index: String, mapping_type: String) -> (r: String)
    ensures
        r@ == base@ + "/"@ + index@ + "/"@ + mapping_type@ + "/_validate/query"@,
{
    let mut url = base;
    url.append("/");
    url.append(index.as_str());
    url.append("/");
    url.append(mapping_type.as_str());
    url.append("/_validate/query");
    url
}

} // verus!
