//! Endpoint URLs for writing a type mapping.

use vstd::prelude::*;

verus! {

/// Builds the URL for `/{index}/{mapping_type}/_mapping` under the given base.
pub fn put_index_type(base: String, index: String, mapping_type: String) -> (r: String)
    ensures
        r@ == base@ + "/"@ + index@ + "/"@ + mapping_type@ + "/_mapping"@,
{
    let mut url = base;
    url.append("/");
    url.append(index.as_str());
    url.append("/");
    url.append(mapping_type.as_str());
    url.append("/_mapping");
    url
}

/// Builds the URL for `/{index}/{mapping_type}/_mapping` under the given base.
pub fn post_index_type(base: String, index: String, mapping_type: String) -> (r: String)
    ensures
        r@ == base@ + "/"@ + index@ + "/"@ + mapping_type@ + "/_mapping"@,
{
    let mut url = base;
    url.append("/");
    url.append(index.as_str());
    url.append("/");
    url.append(mapping_type.as_str());
    url.append("/_mapping");
    url
}

/// Builds the URL for `/_mapping/{mapping_type}` under the given base.
pub fn put_type(base: String, mapping_type: String) -> (r: String)
    ensures
        r@ == base@ + "/_mapping/"@ + mapping_type@,
{
    let mut url = base;
    url.append("/_mapping/");
    url.append(mapping_type.as_str());
    url
}

/// Builds the URL for `/_mapping/{mapping_type}` under the given base.
pub fn post_type(base: String, mapping_type: String) -> (r: String)
    ensures
        r@ == base@ + "/_mapping/"@ + mapping_type@,
{
    let mut url = base;
    url.append("/_mapping/");
    url.append(mapping_type.as_str());
    url
}

} // verus!
