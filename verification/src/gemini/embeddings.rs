//! Embeddings of Gemini's `batchEmbedContents` API.

use vstd::prelude::*;
use crate::error::{ProviderError, ProviderErrorView};
use crate::gemini::provider::{
    gemini_headers, headers_sent, method_path, method_url, DEFAULT_API_KEY_ENV, DEFAULT_BASE_URL,
};
use crate::http::{default_agent, default_user_agent, endpoint, header_views, required_key};
use crate::json::{
    items_view, json_uint, json_view, member, object1, object3, Json, JsonMap, JsonView,
};
use crate::text::{decimal, join2, law_decimal_reads_back, texts, to_decimal};

verus! {

pub const DEFAULT_EMBEDDING_MODEL: &'static str = "gemini-embedding-001";

/// The vector size that is asked for by default.
pub const DEFAULT_OUTPUT_DIMENSIONALITY: usize = 768;

/// Configuration of Gemini's batch embeddings endpoint.
#[derive(Debug)]
pub struct GeminiEmbedder {
    pub base_url: String,
    pub api_key: String,
    pub model: String,
    pub output_dimensionality: usize,
    pub user_agent: String,
    /// The identity of the vectors: the model and their size. Vectors of
    /// different sizes cannot be compared.
    pub id: String,
}

/// The identity of the vectors of a model and a size.
pub open spec fn embedder_id(model: Seq<char>, dims: usize) -> Seq<char> {
    model + "/"@ + decimal(dims as nat)
}

fn make_id(model: &str, dims: usize) -> (r: String)
    ensures
        r@ == embedder_id(model@, dims),
{
    let head = join2(model, "/");
    let size = to_decimal(dims as u64);
    join2(head.as_str(), size.as_str())
}

/// The request for the embedding of one text.
pub open spec fn embed_request(model: Seq<char>, text: Seq<char>, dims: usize) -> JsonView {
    object3(
        "model"@,
        JsonView::Str("models/"@ + model),
        "content"@,
        object1("parts"@, JsonView::Array(seq![object1("text"@, JsonView::Str(text))])),
        "outputDimensionality"@,
        json_uint(dims as u64),
    )
}

/// Whether a configuration is the default one with the given API key.
pub open spec fn is_default(e: GeminiEmbedder, api_key: Seq<char>) -> bool {
    &&& e.wf()
    &&& e.base_url@ == DEFAULT_BASE_URL@
    &&& e.api_key@ == api_key
    &&& e.model@ == DEFAULT_EMBEDDING_MODEL@
    &&& e.output_dimensionality == DEFAULT_OUTPUT_DIMENSIONALITY
    &&& e.user_agent@ == default_agent()
}

impl GeminiEmbedder {
    /// Whether the identity belongs to the model and the size.
    pub open spec fn wf(&self) -> bool {
        self.id@ == embedder_id(self.model@, self.output_dimensionality)
    }

    /// The default configuration with an API key.
    pub fn new(api_key: &str) -> (r: GeminiEmbedder)
        ensures
            is_default(r, api_key@),
    {
        GeminiEmbedder {
            base_url: DEFAULT_BASE_URL.to_owned(),
            api_key: api_key.to_owned(),
            model: DEFAULT_EMBEDDING_MODEL.to_owned(),
            output_dimensionality: DEFAULT_OUTPUT_DIMENSIONALITY,
            user_agent: default_user_agent(),
            id: make_id(DEFAULT_EMBEDDING_MODEL, DEFAULT_OUTPUT_DIMENSIONALITY),
        }
    }

    /// The default configuration with the key that the environment holds.
    pub fn from_env(key: Option<String>) -> (r: Result<GeminiEmbedder, ProviderError>)
        ensures
            match r {
                Ok(e) => key is Some && is_default(e, key->0@),
                Err(e) => key is None && e@ == (ProviderErrorView::MissingApiKey {
                    var: DEFAULT_API_KEY_ENV@,
                }),
            },
    {
        match required_key(DEFAULT_API_KEY_ENV, key) {
            Ok(k) => Ok(GeminiEmbedder::new(k.as_str())),
            Err(e) => Err(e),
        }
    }

    /// Sets the base address.
    pub fn with_base_url(self, url: &str) -> (r: GeminiEmbedder)
        ensures
            r == (GeminiEmbedder { base_url: r.base_url, ..self }),
            r.base_url@ == url@,
    {
        let mut e = self;
        e.base_url = url.to_owned();
        e
    }

    /// Sets the model, and the identity with it.
    pub fn with_model(self, model: &str) -> (r: GeminiEmbedder)
        ensures
            r == (GeminiEmbedder { model: r.model, id: r.id, ..self }),
            r.model@ == model@,
            r.wf(),
    {
        let mut e = self;
        e.model = model.to_owned();
        e.id = make_id(model, e.output_dimensionality);
        e
    }

    /// Sets the size of the vectors, and the identity with it.
    pub fn with_output_dimensionality(self, dims: usize) -> (r: GeminiEmbedder)
        ensures
            r == (GeminiEmbedder { output_dimensionality: dims, id: r.id, ..self }),
            r.wf(),
    {
        let mut e = self;
        e.output_dimensionality = dims;
        e.id = make_id(e.model.as_str(), dims);
        e
    }

    /// Sets the user agent.
    pub fn with_user_agent(self, ua: &str) -> (r: GeminiEmbedder)
        ensures
            r == (GeminiEmbedder { user_agent: r.user_agent, ..self }),
            r.user_agent@ == ua@,
    {
        let mut e = self;
        e.user_agent = ua.to_owned();
        e
    }

    /// The identity of the vectors.
    pub fn id(&self) -> (r: &str)
        ensures
            r@ == self.id@,
    {
        self.id.as_str()
    }

    /// The address that requests go to.
    pub fn request_url(&self) -> (r: String)
        ensures
            r@ == endpoint(self.base_url@, method_path(self.model@, ":batchEmbedContents"@)),
    {
        method_url(self.base_url.as_str(), self.model.as_str(), ":batchEmbedContents")
    }

    /// The headers of a request.
    pub fn request_headers(&self) -> (r: Vec<(String, String)>)
        ensures
            header_views(r@) == headers_sent(self.user_agent@, self.api_key@),
    {
        gemini_headers(self.user_agent.as_str(), self.api_key.as_str())
    }

    fn one_request(&self, text: &str) -> (r: Json)
        ensures
            r@ == embed_request(self.model@, text@, self.output_dimensionality),
    {
        let part = Json::Object(JsonMap::new().with("text", Json::text(text)));
        let ghost model = part@;
        let parts: Vec<Json> = vec![part];
        assert(items_view(parts@) =~= seq![model]);
        let content = Json::Object(JsonMap::new().with("parts", Json::Array(parts)));
        let path = join2("models/", self.model.as_str());
        Json::Object(
            JsonMap::new().with("model", Json::Str(path)).with("content", content).with(
                "outputDimensionality",
                Json::uint(self.output_dimensionality as u64),
            ),
        )
    }

    /// The body of a request for the embeddings of `inputs`, one request for
    /// each; none where there is nothing to embed.
    pub fn request_body(&self, inputs: &Vec<String>) -> (r: Option<Json>)
        ensures
            match r {
                Some(j) => inputs@.len() > 0 && j@ == object1(
                    "requests"@,
                    JsonView::Array(
                        texts(inputs@).map_values(
                            |t: Seq<char>|
                                embed_request(self.model@, t, self.output_dimensionality),
                        ),
                    ),
                ),
                None => inputs@.len() == 0,
            },
    {
        if inputs.len() == 0 {
            return None;
        }
        let mut out: Vec<Json> = Vec::new();
        let mut i: usize = 0;
        while i < inputs.len()
            invariant
                i <= inputs@.len(),
                out@.len() == i,
                forall|k: int|
                    0 <= k < i ==> json_view(#[trigger] out@[k]) == embed_request(
                        self.model@,
                        inputs@[k]@,
                        self.output_dimensionality,
                    ),
            decreases inputs@.len() - i,
        {
            out.push(self.one_request(inputs[i].as_str()));
            i = i + 1;
        }
        assert(items_view(out@) =~= texts(inputs@).map_values(
            |t: Seq<char>| embed_request(self.model@, t, self.output_dimensionality),
        ));
        Some(Json::Object(JsonMap::new().with("requests", Json::Array(out))))
    }
}

/// The embeddings of `expected` texts, as they came. An answer of another
/// number of embeddings is refused.
pub fn all_embedded<T>(embeddings: Vec<T>, expected: usize) -> (r: Result<Vec<T>, ProviderError>)
    ensures
        match r {
            Ok(v) => embeddings@.len() == expected && v@ == embeddings@,
            Err(e) => embeddings@.len() != expected && e@ == ProviderErrorView::EmptyResponse,
        },
{
    if embeddings.len() != expected {
        return Err(ProviderError::EmptyResponse);
    }
    Ok(embeddings)
}

/// A text is embedded by the named model, whole, at the size asked for.
pub proof fn law_text_is_embedded_whole(model: Seq<char>, text: Seq<char>, dims: usize)
    ensures
        ({
            let r = embed_request(model, text, dims);
            let parts = member(member(r, "content"@)->0, "parts"@);
            &&& member(r, "model"@) == Some(JsonView::Str("models/"@ + model))
            &&& member(r, "outputDimensionality"@) == Some(json_uint(dims as u64))
            &&& member(r, "content"@) is Some
            &&& parts is Some && parts->0 is Array && parts->0->Array_0.len() == 1
            &&& member(parts->0->Array_0[0], "text"@) == Some(JsonView::Str(text))
        }),
{
    reveal_strlit("model");
    reveal_strlit("content");
    reveal_strlit("outputDimensionality");
    assert("model"@.len() == 5 && "content"@.len() == 7 && "outputDimensionality"@.len() == 20);
}

/// Vectors of one model and of different sizes are told apart.
pub proof fn law_sizes_are_told_apart(model: Seq<char>, a: usize, b: usize)
    requires
        embedder_id(model, a) == embedder_id(model, b),
    ensures
        a == b,
{
    let head = model + "/"@;
    assert(embedder_id(model, a).skip(head.len() as int) =~= decimal(a as nat));
    assert(embedder_id(model, b).skip(head.len() as int) =~= decimal(b as nat));
    law_decimal_reads_back(a as nat);
    law_decimal_reads_back(b as nat);
}

} // verus!
