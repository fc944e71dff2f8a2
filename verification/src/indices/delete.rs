//! Endpoint URL for deleting an index.

use vstd::prelude::*;

verus! {

/// Builds the URL for `/{index}` under the given base.
pub fn delete_index(base: &str, index: &str) -> (r: String)
    ensures
        r@ == base@ + "/"@ + index@,
{
    let mut url = String::from_str(base);
    url.append("/");
    url.append(index);
    url
}

} // verus!
