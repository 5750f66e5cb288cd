//! The provider's configuration, and the requests it makes.

use vstd::prelude::*;
use crate::error::{ProviderError, ProviderErrorView};
use crate::gemini::wire::{
    convert_messages, system_instruction, wire_contents, CallMeta, CallMetaView,
};
use crate::http::{
    default_agent, default_user_agent, endpoint, endpoint_url, header_views, prepended_user_agent,
    push_header, required_key,
};
use crate::json::{
    items_view, json_uint, json_view, no_members, object1, object3, opt_json, opt_str, put,
    signed_number, Json, JsonMap, JsonView,
};
use crate::message::{
    message_views, tool_views, Message, MessageView, ToolSpec, ToolSpecView,
};
use crate::reasoning::ReasoningConfig;
use crate::sampling::{
    merge_extra, merged, nothing_set, opt_real, opt_real_json, stop_json, SamplingConfig,
};
use crate::structured_output::StructuredOutput;
use crate::text::{join2, opt_text, text_eq};
use crate::tool_choice::ToolChoice;

verus! {

pub const DEFAULT_BASE_URL: &'static str = "https://generativelanguage.googleapis.com/v1beta";

pub const DEFAULT_API_KEY_ENV: &'static str = "GEMINI_API_KEY";

pub const DEFAULT_MODEL: &'static str = "gemini-3-flash-preview";

/// Configuration of Gemini's native API.
#[derive(Debug)]
pub struct GeminiProvider {
    pub base_url: String,
    pub api_key: String,
    pub model: String,
    /// The output cap of the model; without one the model uses its own.
    pub max_tokens: Option<usize>,
    pub user_agent: String,
    pub reasoning: Option<ReasoningConfig>,
    pub sampling: SamplingConfig,
    pub tool_choice: Option<ToolChoice>,
    pub structured_output: Option<StructuredOutput>,
}

/// Whether a configuration is the default one with the given API key.
pub open spec fn is_default(p: GeminiProvider, api_key: Seq<char>) -> bool {
    &&& p.base_url@ == DEFAULT_BASE_URL@
    &&& p.api_key@ == api_key
    &&& p.model@ == DEFAULT_MODEL@
    &&& p.max_tokens is None
    &&& p.user_agent@ == default_agent()
    &&& p.reasoning is None
    &&& nothing_set(p.sampling)
    &&& p.tool_choice is None
    &&& p.structured_output is None
}

/// A free-form effort brought to a level that Gemini knows. Thinking cannot be
/// turned off altogether, so `none` becomes `minimal`.
pub open spec fn thinking_level(effort: Seq<char>) -> Seq<char> {
    if effort == "minimal"@ || effort == "low"@ || effort == "medium"@ || effort == "high"@ {
        effort
    } else if effort == "none"@ {
        "minimal"@
    } else if effort == "xhigh"@ || effort == "max"@ {
        "high"@
    } else {
        "medium"@
    }
}

/// A free-form effort brought to a level that Gemini knows.
pub fn normalize_thinking_level(effort: &str) -> (r: String)
    ensures
        r@ == thinking_level(effort@),
{
    if text_eq(effort, "minimal") || text_eq(effort, "low") || text_eq(effort, "medium")
        || text_eq(effort, "high") {
        effort.to_owned()
    } else if text_eq(effort, "none") {
        "minimal".to_owned()
    } else if text_eq(effort, "xhigh") || text_eq(effort, "max") {
        "high".to_owned()
    } else {
        "medium".to_owned()
    }
}

/// The `thinkingConfig` member of a request.
#[derive(Debug, PartialEq, Eq)]
pub struct ThinkingConfig {
    pub thinking_budget: Option<i32>,
    pub include_thoughts: Option<bool>,
    pub thinking_level: Option<String>,
}

/// The model of the `thinkingConfig` member.
pub ghost struct ThinkingConfigView {
    pub thinking_budget: Option<i32>,
    pub include_thoughts: Option<bool>,
    pub thinking_level: Option<Seq<char>>,
}

impl View for ThinkingConfig {
    type V = ThinkingConfigView;

    open spec fn view(&self) -> ThinkingConfigView {
        ThinkingConfigView {
            thinking_budget: self.thinking_budget,
            include_thoughts: self.include_thoughts,
            thinking_level: opt_text(self.thinking_level),
        }
    }
}

/// The JSON form of the `thinkingConfig` member.
pub open spec fn thinking_json(t: ThinkingConfigView) -> JsonView {
    let a = put(
        no_members(),
        "thinkingBudget"@,
        match t.thinking_budget {
            Some(n) => Some(JsonView::Number(signed_number(n as i64))),
            None => None,
        },
    );
    let b = put(
        a,
        "includeThoughts"@,
        match t.include_thoughts {
            Some(x) => Some(JsonView::Bool(x)),
            None => None,
        },
    );
    JsonView::Object(put(b, "thinkingLevel"@, opt_str(t.thinking_level)))
}

impl ThinkingConfig {
    /// The JSON form of the member.
    pub fn to_json(&self) -> (r: Json)
        ensures
            r@ == thinking_json(self@),
    {
        let mut m = JsonMap::new();
        m.put(
            "thinkingBudget",
            match self.thinking_budget {
                Some(n) => Some(Json::sint(n as i64)),
                None => None,
            },
        );
        m.put(
            "includeThoughts",
            match self.include_thoughts {
                Some(x) => Some(Json::Bool(x)),
                None => None,
            },
        );
        m.put("thinkingLevel", Json::opt_text(&self.thinking_level));
        Json::Object(m)
    }
}

/// The thinking that a request asks for: reasoning that is turned on is
/// dynamic (a budget of -1), turned off it is a budget of 0, an effort is a
/// level, and a budget is sent as a 32-bit integer.
pub open spec fn thinking_sent(p: GeminiProvider) -> Option<ThinkingConfigView> {
    match p.reasoning {
        Some(ReasoningConfig::Toggle(on)) => if on {
            Some(
                ThinkingConfigView {
                    thinking_budget: Some(-1i32),
                    include_thoughts: Some(true),
                    thinking_level: None,
                },
            )
        } else {
            Some(
                ThinkingConfigView {
                    thinking_budget: Some(0i32),
                    include_thoughts: None,
                    thinking_level: None,
                },
            )
        },
        Some(ReasoningConfig::Effort(e)) => Some(
            ThinkingConfigView {
                thinking_budget: None,
                include_thoughts: Some(true),
                thinking_level: Some(thinking_level(e@)),
            },
        ),
        Some(ReasoningConfig::Budget(n)) => Some(
            ThinkingConfigView {
                thinking_budget: Some(n as i32),
                include_thoughts: Some(true),
                thinking_level: None,
            },
        ),
        None => None,
    }
}

/// The function-calling configuration of a mode and, where one is given, of
/// the only function allowed.
pub open spec fn calling_config(mode: Seq<char>, allowed: Option<Seq<char>>) -> JsonView {
    object1(
        "functionCallingConfig"@,
        JsonView::Object(
            put(
                no_members().insert("mode"@, JsonView::Str(mode)),
                "allowedFunctionNames"@,
                match allowed {
                    Some(name) => Some(JsonView::Array(seq![JsonView::Str(name)])),
                    None => None,
                },
            ),
        ),
    )
}

/// The tool configuration that is sent.
pub open spec fn tool_config_sent(p: GeminiProvider, has_tools: bool) -> Option<JsonView> {
    match p.tool_choice {
        Some(c) => if has_tools {
            Some(
                match c {
                    ToolChoice::Auto => calling_config("AUTO"@, None),
                    ToolChoice::NoTool => calling_config("NONE"@, None),
                    ToolChoice::Required => calling_config("ANY"@, None),
                    ToolChoice::Tool(name) => calling_config("ANY"@, Some(name@)),
                },
            )
        } else {
            None
        },
        None => None,
    }
}

/// A tool as a request declares it. The schema is sent as given: bringing it
/// into the subset that the provider accepts is the caller's work.
pub open spec fn declaration(t: ToolSpecView) -> JsonView {
    object3(
        "name"@,
        JsonView::Str(t.name),
        "description"@,
        JsonView::Str(t.description),
        "parameters"@,
        t.parameters_schema,
    )
}

/// The tools of a request.
pub open spec fn tools_sent(tools: Seq<ToolSpecView>) -> Option<JsonView> {
    if tools.len() == 0 {
        None
    } else {
        Some(
            JsonView::Array(
                seq![
                    object1(
                        "functionDeclarations"@,
                        JsonView::Array(tools.map_values(|t: ToolSpecView| declaration(t))),
                    ),
                ],
            ),
        )
    }
}

/// The output cap of a request: an explicit sampling override, else that of
/// the model.
pub open spec fn cap_sent(p: GeminiProvider) -> Option<usize> {
    match p.sampling.max_tokens {
        Some(n) => Some(n),
        None => p.max_tokens,
    }
}

/// The generation parameters of a request. The schema of the structured output
/// is sent as given: bringing it into the subset that the provider accepts is
/// the caller's work.
pub open spec fn generation_sent(p: GeminiProvider) -> JsonView {
    let m = put(
        no_members(),
        "maxOutputTokens"@,
        match cap_sent(p) {
            Some(n) => Some(json_uint(n as u64)),
            None => None,
        },
    );
    let m = put(
        m,
        "thinkingConfig"@,
        match thinking_sent(p) {
            Some(t) => Some(thinking_json(t)),
            None => None,
        },
    );
    let m = put(m, "temperature"@, opt_real(p.sampling.temperature));
    let m = put(m, "topP"@, opt_real(p.sampling.top_p));
    let m = put(
        m,
        "topK"@,
        match p.sampling.top_k {
            Some(n) => Some(json_uint(n as u64)),
            None => None,
        },
    );
    let m = put(
        m,
        "seed"@,
        match p.sampling.seed {
            Some(n) => Some(json_uint(n)),
            None => None,
        },
    );
    let m = put(m, "frequencyPenalty"@, opt_real(p.sampling.frequency_penalty));
    let m = put(m, "presencePenalty"@, opt_real(p.sampling.presence_penalty));
    let m = put(m, "stopSequences"@, stop_json(p.sampling));
    let m = put(
        m,
        "responseMimeType"@,
        match p.structured_output {
            Some(_) => Some(JsonView::Str("application/json"@)),
            None => None,
        },
    );
    JsonView::Object(
        put(
            m,
            "responseSchema"@,
            match p.structured_output {
                Some(so) => Some(so.schema@),
                None => None,
            },
        ),
    )
}

/// The members of a request that the configuration and the conversation make.
pub open spec fn own_members(
    p: GeminiProvider,
    ms: Seq<MessageView>,
    tools: Seq<ToolSpecView>,
    meta: CallMetaView,
) -> Map<Seq<char>, JsonView> {
    let m = put(no_members(), "systemInstruction"@, system_instruction(ms));
    let m = m.insert("contents"@, JsonView::Array(wire_contents(ms, meta)));
    let m = put(m, "tools"@, tools_sent(tools));
    let m = m.insert("generationConfig"@, generation_sent(p));
    put(m, "toolConfig"@, tool_config_sent(p, tools.len() > 0))
}

/// The body of a request.
pub open spec fn body_sent(
    p: GeminiProvider,
    ms: Seq<MessageView>,
    tools: Seq<ToolSpecView>,
    meta: CallMetaView,
) -> JsonView {
    merged(JsonView::Object(own_members(p, ms, tools, meta)), p.sampling.extra@)
}

/// The headers of a request.
pub open spec fn headers_sent(agent: Seq<char>, key: Seq<char>) -> Seq<(Seq<char>, Seq<char>)> {
    let common = seq![("Content-Type"@, "application/json"@), ("User-Agent"@, agent)];
    if key.len() > 0 {
        common.push(("x-goog-api-key"@, key))
    } else {
        common
    }
}

/// The headers of a request.
pub fn gemini_headers(agent: &str, key: &str) -> (r: Vec<(String, String)>)
    ensures
        header_views(r@) == headers_sent(agent@, key@),
{
    let mut out: Vec<(String, String)> = Vec::new();
    push_header(&mut out, "Content-Type", "application/json");
    push_header(&mut out, "User-Agent", agent);
    assert(header_views(out@) =~= seq![
        ("Content-Type"@, "application/json"@),
        ("User-Agent"@, agent@),
    ]);
    if !key.is_empty() {
        push_header(&mut out, "x-goog-api-key", key);
    }
    out
}

/// The path of a method of a model.
pub open spec fn method_path(model: Seq<char>, method: Seq<char>) -> Seq<char> {
    "/models/"@ + model + method
}

/// The address of a method of a model.
pub fn method_url(base: &str, model: &str, method: &str) -> (r: String)
    ensures
        r@ == endpoint(base@, method_path(model@, method@)),
{
    let path = join2("/models/", model);
    let path = join2(path.as_str(), method);
    endpoint_url(base, path.as_str())
}

impl GeminiProvider {
    /// The default configuration with an API key.
    pub fn new(api_key: &str) -> (r: GeminiProvider)
        ensures
            is_default(r, api_key@),
    {
        GeminiProvider {
            base_url: DEFAULT_BASE_URL.to_owned(),
            api_key: api_key.to_owned(),
            model: DEFAULT_MODEL.to_owned(),
            max_tokens: None,
            user_agent: default_user_agent(),
            reasoning: None,
            sampling: SamplingConfig::default(),
            tool_choice: None,
            structured_output: None,
        }
    }

    /// The default configuration with the key that the environment holds.
    pub fn from_env(key: Option<String>) -> (r: Result<GeminiProvider, ProviderError>)
        ensures
            match r {
                Ok(p) => key is Some && is_default(p, key->0@),
                Err(e) => key is None && e@ == (ProviderErrorView::MissingApiKey {
                    var: DEFAULT_API_KEY_ENV@,
                }),
            },
    {
        match required_key(DEFAULT_API_KEY_ENV, key) {
            Ok(k) => Ok(GeminiProvider::new(k.as_str())),
            Err(e) => Err(e),
        }
    }

    /// Sets the sampling parameters.
    pub fn with_sampling(self, sampling: SamplingConfig) -> (r: GeminiProvider)
        ensures
            r == (GeminiProvider { sampling, ..self }),
    {
        let mut p = self;
        p.sampling = sampling;
        p
    }

    /// Constrains how the model chooses among tools.
    pub fn with_tool_choice(self, choice: ToolChoice) -> (r: GeminiProvider)
        ensures
            r == (GeminiProvider { tool_choice: Some(choice), ..self }),
    {
        let mut p = self;
        p.tool_choice = Some(choice);
        p
    }

    /// Constrains the answer to JSON that matches a schema.
    pub fn with_structured_output(self, output: StructuredOutput) -> (r: GeminiProvider)
        ensures
            r == (GeminiProvider { structured_output: Some(output), ..self }),
    {
        let mut p = self;
        p.structured_output = Some(output);
        p
    }

    /// Sets the model.
    pub fn with_model(self, model: &str) -> (r: GeminiProvider)
        ensures
            r == (GeminiProvider { model: r.model, ..self }),
            r.model@ == model@,
    {
        let mut p = self;
        p.model = model.to_owned();
        p
    }

    /// Sets the base address.
    pub fn with_base_url(self, base_url: &str) -> (r: GeminiProvider)
        ensures
            r == (GeminiProvider { base_url: r.base_url, ..self }),
            r.base_url@ == base_url@,
    {
        let mut p = self;
        p.base_url = base_url.to_owned();
        p
    }

    /// Sets the output cap of the model.
    pub fn with_max_tokens(self, max_tokens: usize) -> (r: GeminiProvider)
        ensures
            r == (GeminiProvider { max_tokens: Some(max_tokens), ..self }),
    {
        let mut p = self;
        p.max_tokens = Some(max_tokens);
        p
    }

    /// Sets the user agent.
    pub fn with_user_agent(self, ua: &str) -> (r: GeminiProvider)
        ensures
            r == (GeminiProvider { user_agent: r.user_agent, ..self }),
            r.user_agent@ == ua@,
    {
        let mut p = self;
        p.user_agent = ua.to_owned();
        p
    }

    /// Puts `prefix` and a space in front of the user agent.
    pub fn prepend_user_agent(self, prefix: &str) -> (r: GeminiProvider)
        ensures
            r == (GeminiProvider { user_agent: r.user_agent, ..self }),
            r.user_agent@ == prefix@ + " "@ + self.user_agent@,
    {
        let mut p = self;
        p.user_agent = prepended_user_agent(prefix, p.user_agent.as_str());
        p
    }

    /// Configures reasoning. The caller picks the form that the model accepts.
    pub fn with_reasoning(self, config: ReasoningConfig) -> (r: GeminiProvider)
        ensures
            r == (GeminiProvider { reasoning: Some(config), ..self }),
    {
        let mut p = self;
        p.reasoning = Some(config);
        p
    }

    /// The thinking that a request asks for.
    pub fn thinking_config(&self) -> (r: Option<ThinkingConfig>)
        ensures
            match r {
                Some(t) => thinking_sent(*self) == Some(t@),
                None => thinking_sent(*self) is None,
            },
    {
        match &self.reasoning {
            Some(ReasoningConfig::Toggle(on)) => if *on {
                Some(
                    ThinkingConfig {
                        thinking_budget: Some(-1),
                        include_thoughts: Some(true),
                        thinking_level: None,
                    },
                )
            } else {
                Some(
                    ThinkingConfig {
                        thinking_budget: Some(0),
                        include_thoughts: None,
                        thinking_level: None,
                    },
                )
            },
            Some(ReasoningConfig::Effort(e)) => Some(
                ThinkingConfig {
                    thinking_budget: None,
                    include_thoughts: Some(true),
                    thinking_level: Some(normalize_thinking_level(e.as_str())),
                },
            ),
            Some(ReasoningConfig::Budget(n)) => Some(
                ThinkingConfig {
                    thinking_budget: Some(*n as i32),
                    include_thoughts: Some(true),
                    thinking_level: None,
                },
            ),
            None => None,
        }
    }

    /// The tool configuration that is sent.
    pub fn tool_config_value(&self, has_tools: bool) -> (r: Option<Json>)
        ensures
            opt_json(r) == tool_config_sent(*self, has_tools),
    {
        if !has_tools {
            return None;
        }
        match &self.tool_choice {
            Some(c) => {
                let mode = match c {
                    ToolChoice::Auto => "AUTO",
                    ToolChoice::NoTool => "NONE",
                    ToolChoice::Required => "ANY",
                    ToolChoice::Tool(_) => "ANY",
                };
                let allowed = match c {
                    ToolChoice::Tool(name) => {
                        let items: Vec<Json> = vec![Json::text(name.as_str())];
                        assert(items_view(items@) =~= seq![JsonView::Str(name@)]);
                        Some(Json::Array(items))
                    },
                    _ => None,
                };
                let mut m = JsonMap::new();
                m.insert("mode", Json::text(mode));
                m.put("allowedFunctionNames", allowed);
                Some(Json::Object(JsonMap::new().with("functionCallingConfig", Json::Object(m))))
            },
            None => None,
        }
    }

    fn tools_json(tools: &Vec<ToolSpec>) -> (r: Option<Json>)
        ensures
            opt_json(r) == tools_sent(tool_views(tools@)),
    {
        assert(tool_views(tools@).len() == tools@.len());
        if tools.len() == 0 {
            return None;
        }
        let mut out: Vec<Json> = Vec::new();
        let mut i: usize = 0;
        while i < tools.len()
            invariant
                i <= tools@.len(),
                out@.len() == i,
                forall|k: int| 0 <= k < i ==> json_view(#[trigger] out@[k]) == declaration(tools@[k]@),
            decreases tools@.len() - i,
        {
            out.push(
                Json::Object(
                    JsonMap::new().with("name", Json::text(tools[i].name.as_str())).with(
                        "description",
                        Json::text(tools[i].description.as_str()),
                    ).with("parameters", tools[i].parameters_schema.copy()),
                ),
            );
            i = i + 1;
        }
        assert(items_view(out@) =~= tool_views(tools@).map_values(
            |t: ToolSpecView| declaration(t),
        ));
        let group = Json::Object(JsonMap::new().with("functionDeclarations", Json::Array(out)));
        let ghost model = group@;
        let items: Vec<Json> = vec![group];
        assert(items_view(items@) =~= seq![model]);
        Some(Json::Array(items))
    }

    fn generation_json(&self) -> (r: Json)
        ensures
            r@ == generation_sent(*self),
    {
        let cap = match self.sampling.max_tokens {
            Some(n) => Some(n),
            None => self.max_tokens,
        };
        let mut m = JsonMap::new();
        m.put(
            "maxOutputTokens",
            match cap {
                Some(n) => Some(Json::uint(n as u64)),
                None => None,
            },
        );
        m.put(
            "thinkingConfig",
            match self.thinking_config() {
                Some(t) => Some(t.to_json()),
                None => None,
            },
        );
        m.put("temperature", opt_real_json(self.sampling.temperature.as_ref()));
        m.put("topP", opt_real_json(self.sampling.top_p.as_ref()));
        m.put(
            "topK",
            match self.sampling.top_k {
                Some(n) => Some(Json::uint(n as u64)),
                None => None,
            },
        );
        m.put(
            "seed",
            match self.sampling.seed {
                Some(n) => Some(Json::uint(n)),
                None => None,
            },
        );
        m.put("frequencyPenalty", opt_real_json(self.sampling.frequency_penalty.as_ref()));
        m.put("presencePenalty", opt_real_json(self.sampling.presence_penalty.as_ref()));
        m.put("stopSequences", self.sampling.stop_value());
        m.put(
            "responseMimeType",
            match &self.structured_output {
                Some(_) => Some(Json::text("application/json")),
                None => None,
            },
        );
        m.put(
            "responseSchema",
            match &self.structured_output {
                Some(so) => Some(so.schema.copy()),
                None => None,
            },
        );
        Json::Object(m)
    }

    /// The body of a request, with the schemas of the tools and of the
    /// structured output as given.
    pub fn build_request_body(&self, messages: &Vec<Message>, tools: &Vec<ToolSpec>, meta: &CallMeta)
        -> (r: Json)
        ensures
            r@ == body_sent(*self, message_views(messages@), tool_views(tools@), meta@),
    {
        let (system, contents) = convert_messages(messages, meta);
        let mut m = JsonMap::new();
        m.put("systemInstruction", system);
        m.insert("contents", Json::Array(contents));
        m.put("tools", GeminiProvider::tools_json(tools));
        m.insert("generationConfig", self.generation_json());
        assert(tool_views(tools@).len() == tools@.len());
        m.put("toolConfig", self.tool_config_value(tools.len() > 0));
        let mut body = Json::Object(m);
        merge_extra(&mut body, &self.sampling.extra);
        body
    }

    /// The address that requests go to.
    pub fn request_url(&self, stream: bool) -> (r: String)
        ensures
            r@ == endpoint(
                self.base_url@,
                method_path(
                    self.model@,
                    if stream {
                        ":streamGenerateContent?alt=sse"@
                    } else {
                        ":generateContent"@
                    },
                ),
            ),
    {
        let method = if stream {
            ":streamGenerateContent?alt=sse"
        } else {
            ":generateContent"
        };
        method_url(self.base_url.as_str(), self.model.as_str(), method)
    }

    /// The headers of a request.
    pub fn request_headers(&self) -> (r: Vec<(String, String)>)
        ensures
            header_views(r@) == headers_sent(self.user_agent@, self.api_key@),
    {
        gemini_headers(self.user_agent.as_str(), self.api_key.as_str())
    }
}

/// Every level that is sent is one that Gemini knows, and bringing it to a
/// level again changes nothing.
pub proof fn law_levels_are_known(effort: Seq<char>)
    ensures
        ({
            let l = thinking_level(effort);
            l == "minimal"@ || l == "low"@ || l == "medium"@ || l == "high"@
        }),
        thinking_level(thinking_level(effort)) == thinking_level(effort),
{
}

} // verus!
