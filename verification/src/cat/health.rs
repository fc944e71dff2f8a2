//! Endpoint URL for cluster health.

use vstd::prelude::*;

use crate::{query_text, RequestParams};

verus! {

/// Builds the URL for `/_cat/health` under the parameters' base, with their
/// query string.
pub fn get(req: &RequestParams) -> (r: String)
    ensures
        r@ == (req.base_url@ + "/_cat/health"@) + query_text(req.url_params@),
{
    let mut url = req.base_url.clone();
    url.append("/_cat/health");
    let qry = req.get_url_qry();
    url.append(qry.as_str());
    url
}

} // verus!
