//! The Brave search engine: what it is asked, and what its hits are.

use vstd::prelude::*;
use crate::http::{endpoint, endpoint_url, header_views, push_header};
use crate::text::{decimal, to_decimal};
use crate::tools::web_search::{result_views, SearchResult, SearchResultView, WebSearchError};

verus! {

pub const DEFAULT_BASE_URL: &'static str = "https://api.search.brave.com";

pub const DEFAULT_API_KEY_ENV: &'static str = "BRAVE_SEARCH_API_KEY";

/// How the engine is reached.
#[derive(Debug)]
pub struct BraveBackend {
    pub api_key: String,
    pub base_url: String,
}

/// A hit as the engine reports it.
#[derive(Debug)]
pub struct BraveResult {
    pub title: String,
    pub url: String,
    pub description: String,
}

/// What a hit of the engine is.
pub open spec fn brave_result(r: BraveResult) -> SearchResultView {
    SearchResultView { title: r.title@, url: r.url@, snippet: r.description@ }
}

/// What the hits of the engine are, in order.
pub open spec fn brave_views(s: Seq<BraveResult>) -> Seq<SearchResultView> {
    s.map_values(|r: BraveResult| brave_result(r))
}

impl BraveBackend {
    /// The engine at its usual address.
    pub fn new(api_key: &str) -> (r: BraveBackend)
        ensures
            r.api_key@ == api_key@,
            r.base_url@ == DEFAULT_BASE_URL@,
    {
        BraveBackend { api_key: api_key.to_owned(), base_url: DEFAULT_BASE_URL.to_owned() }
    }

    /// The engine with the key that the environment holds.
    pub fn from_env(key: Option<String>) -> (r: Result<BraveBackend, WebSearchError>)
        ensures
            match r {
                Ok(b) => key is Some && b.api_key@ == key->0@ && b.base_url@ == DEFAULT_BASE_URL@,
                Err(e) => key is None && (e matches WebSearchError::MissingApiKey { var } && var@
                    == DEFAULT_API_KEY_ENV@),
            },
    {
        match key {
            Some(k) => Ok(BraveBackend::new(k.as_str())),
            None => Err(WebSearchError::MissingApiKey { var: DEFAULT_API_KEY_ENV }),
        }
    }

    /// Sets the address.
    pub fn with_base_url(self, url: &str) -> (r: BraveBackend)
        ensures
            r.base_url@ == url@,
            r.api_key == self.api_key,
    {
        BraveBackend { api_key: self.api_key, base_url: url.to_owned() }
    }

    /// The address of a request.
    pub fn request_url(&self) -> (r: String)
        ensures
            r@ == endpoint(self.base_url@, "/res/v1/web/search"@),
    {
        endpoint_url(self.base_url.as_str(), "/res/v1/web/search")
    }

    /// The query parameters of a request.
    pub fn request_query(&self, query: &str, max_results: usize) -> (r: Vec<(String, String)>)
        ensures
            header_views(r@) == seq![("q"@, query@), ("count"@, decimal(max_results as nat))],
    {
        let mut out: Vec<(String, String)> = Vec::new();
        assert(header_views(out@) =~= Seq::<(Seq<char>, Seq<char>)>::empty());
        push_header(&mut out, "q", query);
        let count = to_decimal(max_results as u64);
        push_header(&mut out, "count", count.as_str());
        assert(header_views(out@) =~= seq![("q"@, query@), ("count"@, decimal(max_results as nat))]);
        out
    }

    /// The headers of a request.
    pub fn request_headers(&self) -> (r: Vec<(String, String)>)
        ensures
            header_views(r@) == seq![
                ("X-Subscription-Token"@, self.api_key@),
                ("Accept"@, "application/json"@),
            ],
    {
        let mut out: Vec<(String, String)> = Vec::new();
        assert(header_views(out@) =~= Seq::<(Seq<char>, Seq<char>)>::empty());
        push_header(&mut out, "X-Subscription-Token", self.api_key.as_str());
        push_header(&mut out, "Accept", "application/json");
        assert(header_views(out@) =~= seq![
            ("X-Subscription-Token"@, self.api_key@),
            ("Accept"@, "application/json"@),
        ]);
        out
    }
}

/// What the hits of the engine are, in order.
pub fn brave_results(results: Vec<BraveResult>) -> (r: Vec<SearchResult>)
    ensures
        result_views(r@) == brave_views(results@),
{
    let n: usize = results.len();
    let mut rest = results;
    let mut out: Vec<SearchResult> = Vec::new();
    let mut i: usize = 0;
    while i < n
        invariant
            i <= n,
            n == results@.len(),
            rest@ == results@.skip(i as int),
            result_views(out@) == brave_views(results@).take(i as int),
        decreases n - i,
    {
        let ghost before = result_views(out@);
        let hit = rest.remove(0);
        let result = SearchResult { title: hit.title, url: hit.url, snippet: hit.description };
        assert(result@ == brave_views(results@)[i as int]);
        out.push(result);
        assert(result_views(out@) =~= before.push(result@));
        i = i + 1;
        assert(rest@ =~= results@.skip(i as int));
        assert(result_views(out@) =~= brave_views(results@).take(i as int));
    }
    assert(brave_views(results@).take(i as int) =~= brave_views(results@));
    out
}

/// Every hit of the engine is a hit, in order, with its title, its address
/// and its description as the snippet.
pub proof fn law_every_hit_is_kept(s: Seq<BraveResult>, i: int)
    requires
        0 <= i < s.len(),
    ensures
        brave_views(s).len() == s.len(),
        brave_views(s)[i].title == s[i].title@,
        brave_views(s)[i].url == s[i].url@,
        brave_views(s)[i].snippet == s[i].description@,
{
}

} // verus!
