//! Endpoint URL for reading a snapshot.

use vstd::prelude::*;

use crate::{query_text, RequestParams};

verus! {

/// Builds the URL for `/_snapshot/{repository}/{snapshot}` with the
/// parameters' query string.
pub fn get_repository_snapshot(req: &RequestParams, repository: &str, snapshot: &str) -> (r:
    String)
    ensures
        r@ == ((((req.base_url@ + "/_snapshot/"@) + repository@) + "/"@) + snapshot@) + query_text(
            req.url_params@,
        ),
{
    let mut url = req.base_url.clone();
    url.append("/_snapshot/");
    url.append(repository);
    url.append("/");
    url.append(snapshot);
    let qry = req.get_url_qry();
    url.append(qry.as_str());
    url
}

} // verus!
