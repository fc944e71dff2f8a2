//! Endpoint URLs for reading mappings.

use vstd::prelude::*;

verus! {

/// Builds the URL for `/{index}/_mapping` under the given base.
pub fn get_index(base: &str, index: &str) -> (r: String)
    ensures
        r@ == base@ + "/"@ + index@ + "/_mapping"@,
{
    let mut url = String::from_str(base);
    url.append("/");
    url.append(index);
    url.append("/_mapping");
    url
}

/// Builds the URL for `/{index}/_mapping/{mapping_type}` under the given base.
pub fn get_index_type(base: &str, index: &str, mapping_type: &str) -> (r: String)
    ensures
        r@ == base@ + "/"@ + index@ + "/_mapping/"@ + mapping_type@,
{
    let mut url = String::from_str(base);
    url.append("/");
    url.append(index);
    url.append("/_mapping/");
    url.append(mapping_type);
    url
}

/// Builds the URL for `/_mapping` under the given base.
pub fn get(base: &str) -> (r: String)
    ensures
        r@ == base@ + "/_mapping"@,
{
    let mut url = String::from_str(base);
    url.append("/_mapping");
    url
}

/// Builds the URL for `/_mapping/{mapping_type}` under the given base.
pub fn get_type(base: &str, mapping_type: &str) -> (r: String)
    ensures
        r@ == base@ + "/_mapping/"@ + mapping_type@,
{
    let mut url = String::from_str(base);
    url.append("/_mapping/");
    url.append(mapping_type);
    url
}

} // verus!
