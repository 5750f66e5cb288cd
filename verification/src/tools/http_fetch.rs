//! The tool that fetches a page.

use vstd::prelude::*;
use crate::json::{Json, JsonView};
use crate::message::{ToolSpec, ToolSpecView};
use crate::text::join2;
use crate::tool::{RatedTool, ToolRisk};

verus! {

/// What is fetched, and how much of it is kept.
#[derive(Debug)]
pub struct HttpFetch {
    /// URL to fetch.
    pub url: String,
    /// Maximum number of bytes to read from the response body.
    pub max_bytes: Option<usize>,
}

impl Default for HttpFetch {
    /// The request for the empty address, without a limit.
    fn default() -> (r: HttpFetch)
        ensures
            r.url@ == Seq::<char>::empty(),
            r.max_bytes is None,
    {
        HttpFetch { url: String::new(), max_bytes: None }
    }
}

/// How the tool is described to a model.
pub open spec fn http_fetch_spec(schema: JsonView) -> ToolSpecView {
    ToolSpecView {
        name: "http_fetch"@,
        description: "Fetch the contents of a URL via HTTP GET"@,
        parameters_schema: schema,
    }
}

/// The text that `String::from_utf8_lossy` makes of bytes.
pub uninterp spec fn lossy_text(bytes: Seq<u8>) -> Seq<char>;

/// `String::from_utf8_lossy`: the text that the bytes encode where they are
/// valid UTF-8, and otherwise a text that depends on the bytes alone.
#[verifier::external_body]
fn lossy(bytes: &[u8]) -> (r: String)
    ensures
        r@ == lossy_text(bytes@),
        vstd::utf8::valid_utf8(bytes@) ==> r@ == vstd::utf8::decode_utf8(bytes@),
{
    String::from_utf8_lossy(bytes).into_owned()
}

/// The bytes of a body that are kept.
pub open spec fn kept(bytes: Seq<u8>, max: Option<usize>) -> Seq<u8> {
    match max {
        Some(n) => if n < bytes.len() {
            bytes.take(n as int)
        } else {
            bytes
        },
        None => bytes,
    }
}

impl HttpFetch {
    /// The tool, with the schema of its arguments.
    pub fn tool(schema: Json) -> (r: RatedTool)
        ensures
            r.spec@ == http_fetch_spec(schema@),
            r.risk == ToolRisk::ReadOnly,
    {
        RatedTool {
            spec: ToolSpec {
                name: "http_fetch".to_owned(),
                description: "Fetch the contents of a URL via HTTP GET".to_owned(),
                parameters_schema: schema,
            },
            risk: ToolRisk::ReadOnly,
        }
    }

    /// What is answered for a page: its status line, and its body as far as it
    /// is kept.
    pub fn reply(&self, status: &str, body: &Vec<u8>) -> (r: String)
        ensures
            r@ == "Status: "@ + status@ + "\n\n"@ + lossy_text(kept(body@, self.max_bytes)),
            vstd::utf8::valid_utf8(kept(body@, self.max_bytes)) ==> r@ == "Status: "@ + status@
                + "\n\n"@ + vstd::utf8::decode_utf8(kept(body@, self.max_bytes)),
    {
        let n: usize = match self.max_bytes {
            Some(max) => if max < body.len() {
                max
            } else {
                body.len()
            },
            None => body.len(),
        };
        let part = vstd::slice::slice_subrange(body.as_slice(), 0, n);
        assert(part@ =~= kept(body@, self.max_bytes));
        let text = lossy(part);
        let mut out = join2("Status: ", status);
        out.append("\n\n");
        out.append(text.as_str());
        out
    }
}

/// Bytes beyond the limit make no difference.
pub proof fn law_bytes_beyond_the_limit_do_not_matter(body: Seq<u8>, more: Seq<u8>, max: usize)
    requires
        body.len() >= max,
    ensures
        kept(body + more, Some(max)) == kept(body, Some(max)),
        kept(body + more, Some(max)).len() == max,
{
    assert((body + more).take(max as int) =~= body.take(max as int));
    assert(body.take(body.len() as int) =~= body);
    if more.len() == 0 {
        assert(body + more =~= body);
    }
}

/// What is kept of a page is its beginning, all of it where there is no limit
/// or the limit is not reached, else as much as the limit says.
pub proof fn law_kept_is_the_beginning(bytes: Seq<u8>, max: Option<usize>)
    ensures
        kept(bytes, max).is_prefix_of(bytes),
        max is None ==> kept(bytes, max) == bytes,
        max is Some && bytes.len() <= max->0 ==> kept(bytes, max) == bytes,
        max is Some && bytes.len() > max->0 ==> kept(bytes, max).len() == max->0,
{
}

} // verus!
