//! The tool that searches the web, over whichever engine it is given.

pub mod brave;
pub mod tavily;

use vstd::prelude::*;
use crate::json::{Json, JsonView};
use crate::message::{ToolSpec, ToolSpecView};
use crate::text::{decimal, join2, to_decimal};
use crate::tool::{RatedTool, ToolError, ToolErrorView, ToolRisk};

verus! {

/// One hit of a search.
#[derive(Clone, Debug, PartialEq, Eq)]
pub struct SearchResult {
    pub title: String,
    pub url: String,
    pub snippet: String,
}

/// The model of a hit.
pub ghost struct SearchResultView {
    pub title: Seq<char>,
    pub url: Seq<char>,
    pub snippet: Seq<char>,
}

impl View for SearchResult {
    type V = SearchResultView;

    open spec fn view(&self) -> SearchResultView {
        SearchResultView { title: self.title@, url: self.url@, snippet: self.snippet@ }
    }
}

/// The models of hits.
pub open spec fn result_views(s: Seq<SearchResult>) -> Seq<SearchResultView> {
    s.map_values(|r: SearchResult| r@)
}

/// Why a search failed.
#[derive(Debug, PartialEq, Eq)]
pub enum WebSearchError {
    /// The environment variable that holds the key is not set.
    MissingApiKey { var: &'static str },
    /// The request did not get through.
    Network(String),
    /// The engine answered with a status that is not a success.
    Http { status: u16, body: String },
    /// The answer could not be read.
    Decode(String),
}

impl WebSearchError {
    /// The message shown for the error.
    pub open spec fn message(&self) -> Seq<char> {
        match self {
            WebSearchError::MissingApiKey { var } => "required environment variable `"@ + var@
                + "` is not set"@,
            WebSearchError::Network(e) => "network error: "@ + e@,
            WebSearchError::Http { status, body } => "HTTP "@ + decimal(*status as nat) + ": "@
                + body@,
            WebSearchError::Decode(e) => "decode error: "@ + e@,
        }
    }

    /// The message shown for the error.
    pub fn to_message(&self) -> (r: String)
        ensures
            r@ == self.message(),
    {
        match self {
            WebSearchError::MissingApiKey { var } => {
                let mut out = join2("required environment variable `", var);
                out.append("` is not set");
                out
            },
            WebSearchError::Network(e) => join2("network error: ", e.as_str()),
            WebSearchError::Http { status, body } => {
                let code = to_decimal(*status as u64);
                let mut out = join2("HTTP ", code.as_str());
                out.append(": ");
                out.append(body.as_str());
                out
            },
            WebSearchError::Decode(e) => join2("decode error: ", e.as_str()),
        }
    }

    /// What a failed search is to the caller of the tool.
    pub fn into_tool_error(self) -> (r: ToolError)
        ensures
            r@ == ToolErrorView::Execution(self.message()),
    {
        ToolError::Execution(self.to_message())
    }
}

/// Lets a successful answer pass, and makes an error of any other.
pub fn accept_answer(status: u16, body: String) -> (r: Result<String, WebSearchError>)
    ensures
        match r {
            Ok(text) => crate::http::is_success(status) && text@ == body@,
            Err(e) => !crate::http::is_success(status) && (e matches WebSearchError::Http {
                status: s,
                body: b,
            } && s == status && b@ == body@),
        },
{
    if 200 <= status && status < 300 {
        Ok(body)
    } else {
        Err(WebSearchError::Http { status, body })
    }
}

/// The search tool over an engine `B`.
#[derive(Debug)]
pub struct WebSearch<B> {
    pub backend: B,
    pub default_max_results: usize,
}

/// How the tool is described to a model.
pub open spec fn web_search_spec(schema: JsonView) -> ToolSpecView {
    ToolSpecView {
        name: "web_search"@,
        description: "Search the web and return the top results as a markdown list."@,
        parameters_schema: schema,
    }
}

impl<B> WebSearch<B> {
    /// The tool over `backend`, which asks for five hits where a call does not
    /// say how many it wants.
    pub fn new(backend: B) -> (r: WebSearch<B>)
        ensures
            r == (WebSearch { backend, default_max_results: 5 }),
    {
        WebSearch { backend, default_max_results: 5 }
    }

    /// Sets how many hits a call gets that does not say how many it wants.
    pub fn with_default_max_results(self, n: usize) -> (r: WebSearch<B>)
        ensures
            r == (WebSearch { default_max_results: n, ..self }),
    {
        WebSearch { backend: self.backend, default_max_results: n }
    }

    /// How many hits the engine is asked for.
    pub fn results_wanted(&self, max_results: Option<usize>) -> (r: usize)
        ensures
            r == (match max_results {
                Some(n) => n,
                None => self.default_max_results,
            }),
    {
        match max_results {
            Some(n) => n,
            None => self.default_max_results,
        }
    }

    /// What a call comes to, once the engine has answered.
    pub fn answer(&self, outcome: Result<Vec<SearchResult>, WebSearchError>) -> (r: Result<
        String,
        ToolError,
    >)
        ensures
            match r {
                Ok(text) => outcome is Ok && text@ == markdown(result_views(outcome->Ok_0@)),
                Err(e) => outcome is Err && e@ == ToolErrorView::Execution(
                    outcome->Err_0.message(),
                ),
            },
    {
        match outcome {
            Ok(results) => Ok(format_markdown(results.as_slice())),
            Err(e) => Err(e.into_tool_error()),
        }
    }

    /// The tool, with the schema of its arguments.
    pub fn tool(&self, schema: Json) -> (r: RatedTool)
        ensures
            r.spec@ == web_search_spec(schema@),
            r.risk == ToolRisk::ReadOnly,
    {
        RatedTool {
            spec: ToolSpec {
                name: "web_search".to_owned(),
                description: "Search the web and return the top results as a markdown list.".to_owned(),
                parameters_schema: schema,
            },
            risk: ToolRisk::ReadOnly,
        }
    }
}

/// The line of the hit at `index`, and the line of its snippet where it has
/// one.
pub open spec fn result_lines(index: int, r: SearchResultView) -> Seq<char> {
    let head = decimal((index + 1) as nat) + ". ["@ + r.title + "]("@ + r.url + ")\n"@;
    if r.snippet.len() == 0 {
        head
    } else {
        head + "   "@ + r.snippet + "\n"@
    }
}

/// The lines of hits, one after the other.
pub open spec fn all_lines(s: Seq<SearchResultView>) -> Seq<char>
    decreases s.len(),
{
    if s.len() == 0 {
        Seq::empty()
    } else {
        all_lines(s.drop_last()) + result_lines(s.len() - 1, s.last())
    }
}

/// Hits as a numbered markdown list.
pub open spec fn markdown(s: Seq<SearchResultView>) -> Seq<char> {
    if s.len() == 0 {
        "No results."@
    } else {
        all_lines(s)
    }
}

/// Hits as a numbered markdown list.
pub fn format_markdown(results: &[SearchResult]) -> (r: String)
    ensures
        r@ == markdown(result_views(results@)),
{
    if results.len() == 0 {
        return "No results.".to_owned();
    }
    let ghost views = result_views(results@);
    let mut out = String::new();
    let mut i: usize = 0;
    assert(views.take(0) =~= Seq::<SearchResultView>::empty());
    while i < results.len()
        invariant
            i <= results@.len(),
            views == result_views(results@),
            out@ == all_lines(views.take(i as int)),
        decreases results@.len() - i,
    {
        let ghost before = out@;
        let ghost next = views.take(i + 1);
        assert(next.drop_last() =~= views.take(i as int));
        assert(next.last() == results@[i as int]@);
        let n: usize = i + 1;
        let number = to_decimal(n as u64);
        out.append(number.as_str());
        out.append(". [");
        out.append(results[i].title.as_str());
        out.append("](");
        out.append(results[i].url.as_str());
        out.append(")\n");
        if !results[i].snippet.as_str().is_empty() {
            out.append("   ");
            out.append(results[i].snippet.as_str());
            out.append("\n");
        }
        assert(out@ =~= before + result_lines(i as int, results@[i as int]@));
        i = i + 1;
    }
    assert(views.take(i as int) =~= views);
    out
}

/// How a hit is to be listed under its number: its title, its address and,
/// on a line below, its snippet where it has one.
pub open spec fn hit_shown(number: nat, r: SearchResultView) -> Seq<char> {
    decimal(number) + ". ["@ + r.title + "]("@ + r.url + ")\n"@ + (if r.snippet.len() > 0 {
        "   "@ + r.snippet + "\n"@
    } else {
        Seq::empty()
    })
}

/// Every hit is listed, in order and under its number, beginning with one.
pub proof fn law_every_hit_is_listed(s: Seq<SearchResultView>)
    requires
        s.len() > 0,
    ensures
        markdown(s) == Seq::new(s.len(), |i: int| hit_shown((i + 1) as nat, s[i])).flatten(),
{
    lemma_lines(s);
}

proof fn lemma_lines(s: Seq<SearchResultView>)
    ensures
        all_lines(s) == Seq::new(s.len(), |i: int| hit_shown((i + 1) as nat, s[i])).flatten(),
    decreases s.len(),
{
    if s.len() > 0 {
        let t = s.drop_last();
        lemma_lines(t);
        let all = Seq::new(s.len(), |i: int| hit_shown((i + 1) as nat, s[i]));
        let front = Seq::new(t.len(), |i: int| hit_shown((i + 1) as nat, t[i]));
        assert(all =~= front.push(all.last()));
        front.lemma_flatten_push(all.last());
        assert(result_lines(s.len() - 1, s.last()) =~= all.last());
    }
}

/// The message of an error names its cause: whatever detail came with it, and
/// for a refused request the status and then the body.
pub proof fn law_messages_name_the_cause(e: WebSearchError)
    ensures
        match e {
            WebSearchError::MissingApiKey { var } => e.message()
                == "required environment variable `"@ + var@ + "` is not set"@,
            WebSearchError::Network(m) => m@.is_suffix_of(e.message()),
            WebSearchError::Http { status, body } => body@.is_suffix_of(e.message()) && ("HTTP "@
                + decimal(status as nat)).is_prefix_of(e.message()),
            WebSearchError::Decode(m) => m@.is_suffix_of(e.message()),
        },
{
}

} // verus!
