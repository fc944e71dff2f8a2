//! Endpoint URLs for index statistics.

use vstd::prelude::*;

verus! {

/// Builds the URL for `/_stats` under the given base.
pub fn get(base: String) -> (r: String)
    ensures
        r@ == base@ + "/_stats"@,
{
    let mut url = base;
    url.append("/_stats");
    url
}

/// Builds the URL for `/_stats/{metric}` under the given base.
pub fn get_metric(base: String, metric: String) -> (r: String)
    ensures
        r@ == base@ + "/_stats/"@ + metric@,
{
    let mut url = base;
    url.append("/_stats/");
    url.append(metric.as_str());
    url
}

/// Builds the URL for `/{index}/_stats` under the given base.
pub fn get_index(base: String, index: String) -> (r: String)
    ensures
        r@ == base@ + "/"@ + index@ + "/_stats"@,
{
    let mut url = base;
    url.append("/");
    url.append(index.as_str());
    url.append("/_stats");
    url
}

/// Builds the URL for `/{index}/_stats/{metric}` under the given base.
pub fn get_index_metric(base: String, index: String, metric: String) -> (r: String)
    ensures
        r@ == base@ + "/"@ + index@ + "/_stats/"@ + metric@,
{
    let mut url = base;
    url.append("/");
    url.append(index.as_str());
    url.append("/_stats/");
    url.append(metric.as_str());
    url
}

} // verus!
