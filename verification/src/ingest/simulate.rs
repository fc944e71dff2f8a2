//! Endpoint URLs for simulating ingest pipelines.

use vstd::prelude::*;

use crate::{query_text, RequestParams};

verus! {

/// Builds the URL for `/_ingest/pipeline/{id}/_simulate` with the
/// parameters' query string.
pub fn post_id(req: &RequestParams, id: &str) -> (r: String)
    ensures
        r@ == (((req.base_url@ + "/_ingest/pipeline/"@) + id@) + "/_simulate"@) + query_text(
            req.url_params@,
        ),
{
    let mut url = req.base_url.clone();
    url.append("/_ingest/pipeline/");
    url.append(id);
    url.append("/_simulate");
    let qry = req.get_url_qry();
    url.append(qry.as_str());
    url
}

/// Builds the URL for `/_ingest/pipeline/_simulate` with the parameters'
/// query string.
pub fn get(req: &RequestParams) -> (r: String)
    ensures
        r@ == (req.base_url@ + "/_ingest/pipeline/_simulate"@) + query_text(req.url_params@),
{
    let mut url = req.base_url.clone();
    url.append("/_ingest/pipeline/_simulate");
    let qry = req.get_url_qry();
    url.append(qry.as_str());
    url
}

/// Builds the URL for `/_ingest/pipeline/{id}/_simulate` with the
/// parameters' query string.
pub fn get_id(req: &RequestParams, id: &str) -> (r: String)
    ensures
        r@ == (((req.base_url@ + "/_ingest/pipeline/"@) + id@) + "/_simulate"@) + query_text(
            req.url_params@,
        ),
{
    let mut url = req.base_url.clone();
    url.append("/_ingest/pipeline/");
    url.append(id);
    url.append("/_simulate");
    let qry = req.get_url_qry();
    url.append(qry.as_str());
    url
}

/// Builds the URL for `/_ingest/pipeline/_simulate` with the parameters'
/// query string.
pub fn post(req: &RequestParams) -> (r: String)
    ensures
        r@ == (req.base_url@ + "/_ingest/pipeline/_simulate"@) + query_text(req.url_params@),
{
    let mut url = req.base_url.clone();
    url.append("/_ingest/pipeline/_simulate");
    let qry = req.get_url_qry();
    url.append(qry.as_str());
    url
}

} // verus!
