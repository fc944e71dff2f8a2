//! Endpoint URLs for reading warmers.

use vstd::prelude::*;

verus! {

/// Builds the URL for `/{index}/_warmer` under the given base.
pub fn get_index(base: &str, index: &str) -> (r: String)
    ensures
        r@ == base@ + "/"@ + index@ + "/_warmer"@,
{
    let mut url = String::from_str(base);
    url.append("/");
    url.append(index);
    url.append("/_warmer");
    url
}

/// Builds the URL for `/{index}/_warmer/{name}` under the given base.
pub fn get_index_name(base: &str, index: &str, name: &str) -> (r: String)
    ensures
        r@ == base@ + "/"@ + index@ + "/_warmer/"@ + name@,
{
    let mut url = String::from_str(base);
    url.append("/");
    url.append(index);
    url.append("/_warmer/");
    url.append(name);
    url
}

/// Builds the URL for `/_warmer` under the given base.
pub fn get(base: &str) -> (r: String)
    ensures
        r@ == base@ + "/_warmer"@,
{
    let mut url = String::from_str(base);
    url.append("/_warmer");
    url
}

/// Builds the URL for `/_warmer/{name}` under the given base.
pub fn get_name(base: &str, name: &str) -> (r: String)
    ensures
        r@ == base@ + "/_warmer/"@ + name@,
{
    let mut url = String::from_str(base);
    url.append("/_warmer/");
    url.append(name);
    url
}

/// Builds the URL for `/{index}/{mapping_type}/_warmer/{name}` under the given base.
pub fn get_index_type_name(base: &str, index: &str, mapping_type: &str, name: &str) -> (r: String)
    ensures
        r@ == base@ + "/"@ + index@ + "/"@ + mapping_type@ + "/_warmer/"@ + name@,
{
    let mut url = String::from_str(base);
    url.append("/");
    url.append(index);
    url.append("/");
    url.append(mapping_type);
    url.append("/_warmer/");
    url.append(name);
    url
}

} // verus!
