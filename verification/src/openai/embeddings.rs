//! Embeddings of OpenAI's `/v1/embeddings` API.

use vstd::prelude::*;
use crate::error::{ProviderError, ProviderErrorView};
use crate::http::{
    default_agent, default_user_agent, endpoint, endpoint_url, header_views, push_header,
    required_key,
};
use crate::json::{object2, Json, JsonMap, JsonView};
use crate::openai::provider::{DEFAULT_API_KEY_ENV, DEFAULT_BASE_URL};
use crate::sampling::{text_array, text_array_json};
use crate::text::{join2, texts};

verus! {

pub const DEFAULT_EMBEDDING_MODEL: &'static str = "text-embedding-3-small";

/// Configuration of OpenAI's embeddings endpoint, or of any that speaks the
/// same protocol.
#[derive(Debug)]
pub struct OpenAIEmbedder {
    pub base_url: String,
    pub api_key: String,
    pub model: String,
    pub user_agent: String,
    /// The identity of the vectors: `openai/` and the model.
    pub id: String,
}

/// The identity of the vectors of a model.
pub open spec fn embedder_id(model: Seq<char>) -> Seq<char> {
    "openai/"@ + model
}

impl OpenAIEmbedder {
    /// Whether the identity belongs to the model.
    pub open spec fn wf(&self) -> bool {
        self.id@ == embedder_id(self.model@)
    }

    /// The default configuration with an API key.
    pub fn new(api_key: &str) -> (r: OpenAIEmbedder)
        ensures
            r.wf(),
            r.base_url@ == DEFAULT_BASE_URL@,
            r.api_key@ == api_key@,
            r.model@ == DEFAULT_EMBEDDING_MODEL@,
            r.user_agent@ == default_agent(),
    {
        OpenAIEmbedder {
            base_url: DEFAULT_BASE_URL.to_owned(),
            api_key: api_key.to_owned(),
            model: DEFAULT_EMBEDDING_MODEL.to_owned(),
            user_agent: default_user_agent(),
            id: join2("openai/", DEFAULT_EMBEDDING_MODEL),
        }
    }

    /// The default configuration with the key that the environment holds.
    pub fn from_env(key: Option<String>) -> (r: Result<OpenAIEmbedder, ProviderError>)
        ensures
            match r {
                Ok(e) => key is Some && e.wf() && e.base_url@ == DEFAULT_BASE_URL@ && e.api_key@
                    == key->0@ && e.model@ == DEFAULT_EMBEDDING_MODEL@ && e.user_agent@
                    == default_agent(),
                Err(e) => key is None && e@ == (ProviderErrorView::MissingApiKey {
                    var: DEFAULT_API_KEY_ENV@,
                }),
            },
    {
        match required_key(DEFAULT_API_KEY_ENV, key) {
            Ok(k) => Ok(OpenAIEmbedder::new(k.as_str())),
            Err(e) => Err(e),
        }
    }

    /// Sets the base address.
    pub fn with_base_url(self, url: &str) -> (r: OpenAIEmbedder)
        ensures
            r == (OpenAIEmbedder { base_url: r.base_url, ..self }),
            r.base_url@ == url@,
    {
        let mut e = self;
        e.base_url = url.to_owned();
        e
    }

    /// Sets the model, and the identity with it.
    pub fn with_model(self, model: &str) -> (r: OpenAIEmbedder)
        ensures
            r == (OpenAIEmbedder { model: r.model, id: r.id, ..self }),
            r.model@ == model@,
            r.wf(),
    {
        let mut e = self;
        e.model = model.to_owned();
        e.id = join2("openai/", model);
        e
    }

    /// Sets the user agent.
    pub fn with_user_agent(self, ua: &str) -> (r: OpenAIEmbedder)
        ensures
            r == (OpenAIEmbedder { user_agent: r.user_agent, ..self }),
            r.user_agent@ == ua@,
    {
        let mut e = self;
        e.user_agent = ua.to_owned();
        e
    }

    /// The identity of the vectors.
    pub fn id(&self) -> (r: &str)
        ensures
            r@ == self.id@,
    {
        self.id.as_str()
    }

    /// The address that requests go to.
    pub fn request_url(&self) -> (r: String)
        ensures
            r@ == endpoint(self.base_url@, "/embeddings"@),
    {
        endpoint_url(self.base_url.as_str(), "/embeddings")
    }

    /// The headers of a request.
    pub fn request_headers(&self) -> (r: Vec<(String, String)>)
        ensures
            header_views(r@) == seq![
                ("authorization"@, "Bearer "@ + self.api_key@),
                ("User-Agent"@, self.user_agent@),
            ],
    {
        let mut out: Vec<(String, String)> = Vec::new();
        let value = join2("Bearer ", self.api_key.as_str());
        push_header(&mut out, "authorization", value.as_str());
        push_header(&mut out, "User-Agent", self.user_agent.as_str());
        assert(header_views(out@) =~= seq![
            ("authorization"@, "Bearer "@ + self.api_key@),
            ("User-Agent"@, self.user_agent@),
        ]);
        out
    }

    /// The body of a request for the embeddings of `inputs`; none where there
    /// is nothing to embed.
    pub fn request_body(&self, inputs: &Vec<String>) -> (r: Option<Json>)
        ensures
            match r {
                Some(j) => inputs@.len() > 0 && j@ == object2(
                    "model"@,
                    JsonView::Str(self.model@),
                    "input"@,
                    text_array(texts(inputs@)),
                ),
                None => inputs@.len() == 0,
            },
    {
        if inputs.len() == 0 {
            return None;
        }
        Some(
            Json::Object(
                JsonMap::new().with("model", Json::text(self.model.as_str())).with(
                    "input",
                    text_array_json(inputs),
                ),
            ),
        )
    }
}

/// Vectors of different models are told apart, and from those of other
/// providers by their beginning.
pub proof fn law_models_are_told_apart(a: Seq<char>, b: Seq<char>)
    ensures
        "openai/"@.is_prefix_of(embedder_id(a)),
        embedder_id(a) == embedder_id(b) ==> a == b,
{
    let n = "openai/"@.len() as int;
    assert(embedder_id(a).skip(n) =~= a);
    assert(embedder_id(b).skip(n) =~= b);
}

} // verus!
