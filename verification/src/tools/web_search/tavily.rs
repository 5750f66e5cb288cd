//! The Tavily search engine: what it is asked, and what its hits are.

use vstd::prelude::*;
use crate::http::{endpoint, endpoint_url, header_views, push_header};
use crate::json::{json_uint, object3, Json, JsonMap, JsonView};
use crate::text::join2;
use crate::tools::web_search::{result_views, SearchResult, SearchResultView, WebSearchError};

verus! {

pub const DEFAULT_BASE_URL: &'static str = "https://api.tavily.com";

pub const DEFAULT_API_KEY_ENV: &'static str = "TAVILY_API_KEY";

/// How thorough a search is. A basic one is faster and cheaper; an advanced
/// one gives better snippets.
#[derive(Clone, Copy, Debug, PartialEq, Eq, Structural)]
pub enum SearchDepth {
    Basic,
    Advanced,
}

/// The name of a depth.
pub open spec fn depth_name(d: SearchDepth) -> Seq<char> {
    match d {
        SearchDepth::Basic => "basic"@,
        SearchDepth::Advanced => "advanced"@,
    }
}

impl SearchDepth {
    /// The name of the depth.
    pub fn as_str(self) -> (r: &'static str)
        ensures
            r@ == depth_name(self),
    {
        match self {
            SearchDepth::Basic => "basic",
            SearchDepth::Advanced => "advanced",
        }
    }
}

/// How the engine is reached, and how thorough its searches are.
#[derive(Debug)]
pub struct TavilyBackend {
    pub api_key: String,
    pub base_url: String,
    pub search_depth: SearchDepth,
}

/// A hit as the engine reports it.
#[derive(Debug)]
pub struct TavilyResult {
    pub title: String,
    pub url: String,
    pub content: String,
}

/// What a hit of the engine is.
pub open spec fn tavily_result(r: TavilyResult) -> SearchResultView {
    SearchResultView { title: r.title@, url: r.url@, snippet: r.content@ }
}

/// What the hits of the engine are, in order.
pub open spec fn tavily_views(s: Seq<TavilyResult>) -> Seq<SearchResultView> {
    s.map_values(|r: TavilyResult| tavily_result(r))
}

impl TavilyBackend {
    /// The engine at its usual address.
    pub fn new(api_key: &str) -> (r: TavilyBackend)
        ensures
            r.api_key@ == api_key@,
            r.base_url@ == DEFAULT_BASE_URL@,
            r.search_depth == SearchDepth::Basic,
    {
        TavilyBackend {
            api_key: api_key.to_owned(),
            base_url: DEFAULT_BASE_URL.to_owned(),
            search_depth: SearchDepth::Basic,
        }
    }

    /// The engine with the key that the environment holds.
    pub fn from_env(key: Option<String>) -> (r: Result<TavilyBackend, WebSearchError>)
        ensures
            match r {
                Ok(b) => key is Some && b.api_key@ == key->0@ && b.base_url@ == DEFAULT_BASE_URL@
                    && b.search_depth == SearchDepth::Basic,
                Err(e) => key is None && (e matches WebSearchError::MissingApiKey { var } && var@
                    == DEFAULT_API_KEY_ENV@),
            },
    {
        match key {
            Some(k) => Ok(TavilyBackend::new(k.as_str())),
            None => Err(WebSearchError::MissingApiKey { var: DEFAULT_API_KEY_ENV }),
        }
    }

    /// Sets the address.
    pub fn with_base_url(self, url: &str) -> (r: TavilyBackend)
        ensures
            r.base_url@ == url@,
            r.api_key == self.api_key,
            r.search_depth == self.search_depth,
    {
        TavilyBackend {
            api_key: self.api_key,
            base_url: url.to_owned(),
            search_depth: self.search_depth,
        }
    }

    /// The address of a request.
    pub fn request_url(&self) -> (r: String)
        ensures
            r@ == endpoint(self.base_url@, "/search"@),
    {
        endpoint_url(self.base_url.as_str(), "/search")
    }

    /// The body of a request.
    pub fn request_body(&self, query: &str, max_results: usize) -> (r: Json)
        ensures
            r@ == object3(
                "query"@,
                JsonView::Str(query@),
                "max_results"@,
                json_uint(max_results as u64),
                "search_depth"@,
                JsonView::Str(depth_name(self.search_depth)),
            ),
    {
        Json::Object(
            JsonMap::new().with("query", Json::text(query)).with(
                "max_results",
                Json::uint(max_results as u64),
            ).with("search_depth", Json::text(self.search_depth.as_str())),
        )
    }

    /// The headers of a request.
    pub fn request_headers(&self) -> (r: Vec<(String, String)>)
        ensures
            header_views(r@) == seq![("authorization"@, "Bearer "@ + self.api_key@)],
    {
        let mut out: Vec<(String, String)> = Vec::new();
        assert(header_views(out@) =~= Seq::<(Seq<char>, Seq<char>)>::empty());
        let bearer = join2("Bearer ", self.api_key.as_str());
        push_header(&mut out, "authorization", bearer.as_str());
        assert(header_views(out@) =~= seq![("authorization"@, "Bearer "@ + self.api_key@)]);
        out
    }

    /// Sets how thorough searches are.
    pub fn with_search_depth(self, depth: SearchDepth) -> (r: TavilyBackend)
        ensures
            r == (TavilyBackend { search_depth: depth, ..self }),
    {
        TavilyBackend { api_key: self.api_key, base_url: self.base_url, search_depth: depth }
    }
}

/// What the hits of the engine are, in order.
pub fn tavily_results(results: Vec<TavilyResult>) -> (r: Vec<SearchResult>)
    ensures
        result_views(r@) == tavily_views(results@),
{
    let n: usize = results.len();
    let mut rest = results;
    let mut out: Vec<SearchResult> = Vec::new();
    let mut i: usize = 0;
    while i < n
        invariant
            i <= n,
            n == results@.len(),
            rest@ == results@.skip(i as int),
            result_views(out@) == tavily_views(results@).take(i as int),
        decreases n - i,
    {
        let ghost before = result_views(out@);
        let hit = rest.remove(0);
        let result = SearchResult { title: hit.title, url: hit.url, snippet: hit.content };
        assert(result@ == tavily_views(results@)[i as int]);
        out.push(result);
        assert(result_views(out@) =~= before.push(result@));
        i = i + 1;
        assert(rest@ =~= results@.skip(i as int));
        assert(result_views(out@) =~= tavily_views(results@).take(i as int));
    }
    assert(tavily_views(results@).take(i as int) =~= tavily_views(results@));
    out
}

/// Every hit of the engine is a hit, in order, with its title, its address
/// and its content as the snippet.
pub proof fn law_every_hit_is_kept(s: Seq<TavilyResult>, i: int)
    requires
        0 <= i < s.len(),
    ensures
        tavily_views(s).len() == s.len(),
        tavily_views(s)[i].title == s[i].title@,
        tavily_views(s)[i].url == s[i].url@,
        tavily_views(s)[i].snippet == s[i].content@,
{
}

} // verus!
