//! Endpoint URL for deleting one document.

use vstd::prelude::*;

verus! {

/// Builds the URL for `/{index}/{mapping_type}/{id}` under the given base.
pub fn delete_index_type_id(base: &str, index: &str, mapping_type: &str, id: &str) -> (r: String)
    ensures
        r@ == base@ + "/"@ + index@ + "/"@ + mapping_type@ + "/"@ + id@,
{
    let mut url = String::from_str(base);
    url.append("/");
    url.append(index);
    url.append("/");
    url.append(mapping_type);
    url.append("/");
    url.append(id);
    url
}

} // verus!
