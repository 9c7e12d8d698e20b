//! The fixed parts of the one search request.
//!
//! The request itself is an outbound HTTP call and lives outside the
//! library; what is fixed about it — the endpoint and the four query
//! parameters — is stated here.
use vstd::prelude::*;

verus! {

/// The endpoint every search request goes to.
pub open spec fn api_endpoint_spec() -> Seq<char> {
    "https://en.wikipedia.org/w/api.php"@
}

/// The endpoint every search request goes to.
pub fn api_endpoint() -> (r: String)
    ensures
        r@ == api_endpoint_spec(),
{
    String::from_str("https://en.wikipedia.org/w/api.php")
}

/// The query parameters of a search request: the three fixed pairs, then
/// the search term itself under `srsearch`.
pub fn search_params(query: &str) -> (r: Vec<(String, String)>)
    ensures
        r@.len() == 4,
        r@[0].0@ == "action"@ && r@[0].1@ == "query"@,
        r@[1].0@ == "format"@ && r@[1].1@ == "json"@,
        r@[2].0@ == "list"@ && r@[2].1@ == "search"@,
        r@[3].0@ == "srsearch"@ && r@[3].1@ == query@,
{
    let mut r: Vec<(String, String)> = Vec::new();
    r.push((String::from_str("action"), String::from_str("query")));
    r.push((String::from_str("format"), String::from_str("json")));
    r.push((String::from_str("list"), String::from_str("search")));
    r.push((String::from_str("srsearch"), String::from_str(query)));
    r
}

} // verus!
