//! The provider's configuration, and the requests it makes.

use vstd::prelude::*;
use crate::error::{ProviderError, ProviderErrorView};
use crate::http::{
    default_agent, default_user_agent, endpoint, endpoint_url, header_views, prepended_user_agent,
    push_header, required_key,
};
use crate::json::{
    items_view, json_uint, json_view, member, no_members, object1, object2, object3, opt_json, opt_str,
    put, Json, JsonMap, JsonView,
};
use crate::message::{
    message_views, tool_views, Message, MessageView, Role, ToolSpec, ToolSpecView,
};
use crate::openai::reasoning::{reasoning_text, ReasoningHistoryKey};
use crate::openai::thinking::ThinkingMode;
use crate::openai::wire::{
    law_every_message_is_sent, law_reasoning_is_replayed, wire_message, wire_messages,
    wire_messages_json,
};
use crate::reasoning::ReasoningConfig;
use crate::sampling::{
    merge_extra, merged, nothing_set, opt_real, opt_real_json, stop_json, SamplingConfig,
};
use crate::structured_output::StructuredOutput;
use crate::text::{join2, opt_text};
use crate::tool_choice::ToolChoice;

verus! {

pub const DEFAULT_BASE_URL: &'static str = "https://api.openai.com/v1";

pub const DEFAULT_API_KEY_ENV: &'static str = "OPENAI_API_KEY";

pub const DEFAULT_MODEL: &'static str = "gpt-4o-mini";

/// What the `thinking` member of a request says.
#[derive(Clone, Copy, Debug, PartialEq, Eq, Structural)]
pub struct ThinkingState {
    /// Whether reasoning is enabled or disabled.
    pub enabled: bool,
    /// Whether the reasoning of earlier turns is kept.
    pub preserve_history: bool,
    /// The token budget of the reasoning.
    pub budget_tokens: Option<u32>,
}

/// The `thinking` member of a request.
#[derive(Debug, PartialEq, Eq)]
pub struct WireThinking {
    pub kind: &'static str,
    pub keep: Option<&'static str>,
    pub budget_tokens: Option<u32>,
}

/// A `thinking` member in JSON.
pub open spec fn thinking_member(
    kind: Seq<char>,
    keep: Option<Seq<char>>,
    budget_tokens: Option<u32>,
) -> JsonView {
    let a = no_members().insert("type"@, JsonView::Str(kind));
    let b = put(a, "keep"@, opt_str(keep));
    JsonView::Object(
        put(
            b,
            "budget_tokens"@,
            match budget_tokens {
                Some(n) => Some(json_uint(n as u64)),
                None => None,
            },
        ),
    )
}

/// The kind that a state is sent as.
pub open spec fn kind_of(t: ThinkingState) -> Seq<char> {
    if t.enabled {
        "enabled"@
    } else {
        "disabled"@
    }
}

/// What a state asks to be kept.
pub open spec fn keep_of(t: ThinkingState) -> Option<Seq<char>> {
    if t.preserve_history {
        Some("all"@)
    } else {
        None
    }
}

/// The JSON form of what the `thinking` member says.
pub open spec fn thinking_json(t: ThinkingState) -> JsonView {
    thinking_member(kind_of(t), keep_of(t), t.budget_tokens)
}

impl WireThinking {
    /// What is asked to be kept.
    pub open spec fn kept(&self) -> Option<Seq<char>> {
        match self.keep {
            Some(k) => Some(k@),
            None => None,
        }
    }

    /// The JSON form of the member.
    pub fn to_json(&self) -> (r: Json)
        ensures
            r@ == thinking_member(self.kind@, self.kept(), self.budget_tokens),
    {
        let mut m = JsonMap::new();
        m.insert("type", Json::text(self.kind));
        m.put(
            "keep",
            match self.keep {
                Some(k) => Some(Json::text(k)),
                None => None,
            },
        );
        m.put(
            "budget_tokens",
            match self.budget_tokens {
                Some(n) => Some(Json::uint(n as u64)),
                None => None,
            },
        );
        Json::Object(m)
    }
}

/// Configuration of OpenAI's `/v1/chat/completions` API, or of any endpoint
/// that speaks the same protocol.
#[derive(Debug)]
pub struct OpenAIProvider {
    pub base_url: String,
    pub api_key: String,
    pub model: String,
    pub context_window: Option<usize>,
    pub user_agent: String,
    pub reasoning_effort: Option<String>,
    pub thinking: Option<ThinkingState>,
    pub reasoning_history_key: ReasoningHistoryKey,
    pub sampling: SamplingConfig,
    pub tool_choice: Option<ToolChoice>,
    pub structured_output: Option<StructuredOutput>,
}

/// Whether a configuration is the default one with the given API key: what
/// reasoning earlier messages carry is sent back under `reasoning_content`.
pub open spec fn is_default(p: OpenAIProvider, api_key: Seq<char>) -> bool {
    &&& is_default_but_for_history(p, api_key)
    &&& p.reasoning_history_key == ReasoningHistoryKey::ReasoningContent
}

/// Whether a configuration is the default one with the given API key, wherever
/// the reasoning of earlier messages goes.
pub open spec fn is_default_but_for_history(p: OpenAIProvider, api_key: Seq<char>) -> bool {
    &&& p.base_url@ == DEFAULT_BASE_URL@
    &&& p.api_key@ == api_key
    &&& p.model@ == DEFAULT_MODEL@
    &&& p.context_window is None
    &&& p.user_agent@ == default_agent()
    &&& p.reasoning_effort is None
    &&& p.thinking is None
    &&& nothing_set(p.sampling)
    &&& p.tool_choice is None
    &&& p.structured_output is None
}

/// Whether a backend that knows reasoning is addressed.
pub open spec fn echoes(p: OpenAIProvider) -> bool {
    p.thinking is Some || p.reasoning_effort is Some
}

/// The tool choice that is sent.
pub open spec fn choice_sent(p: OpenAIProvider, has_tools: bool) -> Option<JsonView> {
    match p.tool_choice {
        Some(c) => if has_tools {
            Some(
                match c {
                    ToolChoice::Auto => JsonView::Str("auto"@),
                    ToolChoice::NoTool => JsonView::Str("none"@),
                    ToolChoice::Required => JsonView::Str("required"@),
                    ToolChoice::Tool(name) => object2(
                        "type"@,
                        JsonView::Str("function"@),
                        "function"@,
                        object1("name"@, JsonView::Str(name@)),
                    ),
                },
            )
        } else {
            None
        },
        None => None,
    }
}

/// The structured-output format that is sent. The schema is sent as given:
/// bringing it into the subset that the provider accepts is the caller's work.
pub open spec fn format_sent(p: OpenAIProvider) -> Option<JsonView> {
    match p.structured_output {
        Some(so) => Some(
            object2(
                "type"@,
                JsonView::Str("json_schema"@),
                "json_schema"@,
                object3(
                    "name"@,
                    JsonView::Str(so.shown_name()),
                    "schema"@,
                    so.schema@,
                    "strict"@,
                    JsonView::Bool(so.strict),
                ),
            ),
        ),
        None => None,
    }
}

/// A tool as a request describes it. The schema is sent as given: bringing it
/// into the subset that the provider accepts is the caller's work.
pub open spec fn wire_tool(t: ToolSpecView) -> JsonView {
    object2(
        "type"@,
        JsonView::Str("function"@),
        "function"@,
        object3(
            "name"@,
            JsonView::Str(t.name),
            "description"@,
            JsonView::Str(t.description),
            "parameters"@,
            t.parameters_schema,
        ),
    )
}

/// The configuration after reasoning is configured. The dialects exclude each
/// other: setting one clears the others.
pub open spec fn reasons(p: OpenAIProvider, config: ReasoningConfig) -> OpenAIProvider {
    match config {
        ReasoningConfig::Toggle(enabled) => OpenAIProvider {
            thinking: Some(
                ThinkingState { enabled, preserve_history: false, budget_tokens: None },
            ),
            reasoning_effort: None,
            ..p
        },
        ReasoningConfig::Budget(n) => OpenAIProvider {
            thinking: Some(
                ThinkingState { enabled: true, preserve_history: false, budget_tokens: Some(n) },
            ),
            reasoning_effort: None,
            ..p
        },
        ReasoningConfig::Effort(e) => OpenAIProvider {
            thinking: None,
            reasoning_effort: Some(e),
            ..p
        },
    }
}

/// The members of a request that the configuration and the conversation make.
pub open spec fn own_members(
    p: OpenAIProvider,
    ms: Seq<MessageView>,
    tools: Seq<ToolSpecView>,
    stream: bool,
) -> Map<Seq<char>, JsonView> {
    let m = no_members().insert("model"@, JsonView::Str(p.model@));
    let m = m.insert(
        "messages"@,
        JsonView::Array(wire_messages(ms, echoes(p), p.reasoning_history_key)),
    );
    let m = put(
        m,
        "tools"@,
        if tools.len() == 0 {
            None
        } else {
            Some(JsonView::Array(tools.map_values(|t: ToolSpecView| wire_tool(t))))
        },
    );
    let m = put(
        m,
        "stream"@,
        if stream {
            Some(JsonView::Bool(true))
        } else {
            None
        },
    );
    let m = put(
        m,
        "stream_options"@,
        if stream {
            Some(object1("include_usage"@, JsonView::Bool(true)))
        } else {
            None
        },
    );
    let m = put(m, "reasoning_effort"@, opt_str(opt_text(p.reasoning_effort)));
    let m = put(
        m,
        "thinking"@,
        match p.thinking {
            Some(t) => Some(thinking_json(t)),
            None => None,
        },
    );
    let m = put(m, "temperature"@, opt_real(p.sampling.temperature));
    let m = put(m, "top_p"@, opt_real(p.sampling.top_p));
    let m = put(m, "frequency_penalty"@, opt_real(p.sampling.frequency_penalty));
    let m = put(m, "presence_penalty"@, opt_real(p.sampling.presence_penalty));
    let m = put(
        m,
        "seed"@,
        match p.sampling.seed {
            Some(n) => Some(json_uint(n)),
            None => None,
        },
    );
    let m = put(
        m,
        "max_tokens"@,
        match p.sampling.max_tokens {
            Some(n) => Some(json_uint(n as u64)),
            None => None,
        },
    );
    let m = put(m, "stop"@, stop_json(p.sampling));
    let m = put(m, "tool_choice"@, choice_sent(p, tools.len() > 0));
    put(m, "response_format"@, format_sent(p))
}

/// The body of a request.
pub open spec fn body_sent(
    p: OpenAIProvider,
    ms: Seq<MessageView>,
    tools: Seq<ToolSpecView>,
    stream: bool,
) -> JsonView {
    merged(JsonView::Object(own_members(p, ms, tools, stream)), p.sampling.extra@)
}

/// The headers of a request. Without a key there is no authorization.
pub open spec fn headers_sent(agent: Seq<char>, key: Seq<char>) -> Seq<(Seq<char>, Seq<char>)> {
    let common = seq![("User-Agent"@, agent)];
    if key.len() > 0 {
        common.push(("authorization"@, "Bearer "@ + key))
    } else {
        common
    }
}

impl OpenAIProvider {
    /// The default configuration with an API key.
    pub fn new(api_key: &str) -> (r: OpenAIProvider)
        ensures
            is_default(r, api_key@),
    {
        OpenAIProvider {
            base_url: DEFAULT_BASE_URL.to_owned(),
            api_key: api_key.to_owned(),
            model: DEFAULT_MODEL.to_owned(),
            context_window: None,
            user_agent: default_user_agent(),
            reasoning_effort: None,
            thinking: None,
            reasoning_history_key: ReasoningHistoryKey::ReasoningContent,
            sampling: SamplingConfig::default(),
            tool_choice: None,
            structured_output: None,
        }
    }

    /// The default configuration with the key that the environment holds.
    pub fn from_env(key: Option<String>) -> (r: Result<OpenAIProvider, ProviderError>)
        ensures
            match r {
                Ok(p) => key is Some && is_default(p, key->0@),
                Err(e) => key is None && e@ == (ProviderErrorView::MissingApiKey {
                    var: DEFAULT_API_KEY_ENV@,
                }),
            },
    {
        match required_key(DEFAULT_API_KEY_ENV, key) {
            Ok(k) => Ok(OpenAIProvider::new(k.as_str())),
            Err(e) => Err(e),
        }
    }

    /// Constrains how the model chooses among tools.
    pub fn with_tool_choice(self, choice: ToolChoice) -> (r: OpenAIProvider)
        ensures
            r == (OpenAIProvider { tool_choice: Some(choice), ..self }),
    {
        let mut p = self;
        p.tool_choice = Some(choice);
        p
    }

    /// Constrains the answer to JSON that matches a schema.
    pub fn with_structured_output(self, output: StructuredOutput) -> (r: OpenAIProvider)
        ensures
            r == (OpenAIProvider { structured_output: Some(output), ..self }),
    {
        let mut p = self;
        p.structured_output = Some(output);
        p
    }

    /// Sets the sampling parameters. `top_k` is not supported here and never
    /// sent.
    pub fn with_sampling(self, sampling: SamplingConfig) -> (r: OpenAIProvider)
        ensures
            r == (OpenAIProvider { sampling, ..self }),
    {
        let mut p = self;
        p.sampling = sampling;
        p
    }

    /// Sets where the reasoning of earlier messages is replayed.
    pub fn with_reasoning_history_key(self, key: ReasoningHistoryKey) -> (r: OpenAIProvider)
        ensures
            r == (OpenAIProvider { reasoning_history_key: key, ..self }),
    {
        let mut p = self;
        p.reasoning_history_key = key;
        p
    }

    /// Sets the base address.
    pub fn with_base_url(self, url: &str) -> (r: OpenAIProvider)
        ensures
            r == (OpenAIProvider { base_url: r.base_url, ..self }),
            r.base_url@ == url@,
    {
        let mut p = self;
        p.base_url = url.to_owned();
        p
    }

    /// Sets the model.
    pub fn with_model(self, model: &str) -> (r: OpenAIProvider)
        ensures
            r == (OpenAIProvider { model: r.model, ..self }),
            r.model@ == model@,
    {
        let mut p = self;
        p.model = model.to_owned();
        p
    }

    /// Sets the size of the model's context.
    pub fn with_context_window(self, tokens: usize) -> (r: OpenAIProvider)
        ensures
            r == (OpenAIProvider { context_window: Some(tokens), ..self }),
    {
        let mut p = self;
        p.context_window = Some(tokens);
        p
    }

    /// Sets the user agent.
    pub fn with_user_agent(self, ua: &str) -> (r: OpenAIProvider)
        ensures
            r == (OpenAIProvider { user_agent: r.user_agent, ..self }),
            r.user_agent@ == ua@,
    {
        let mut p = self;
        p.user_agent = ua.to_owned();
        p
    }

    /// Puts `prefix` and a space in front of the user agent.
    pub fn prepend_user_agent(self, prefix: &str) -> (r: OpenAIProvider)
        ensures
            r == (OpenAIProvider { user_agent: r.user_agent, ..self }),
            r.user_agent@ == prefix@ + " "@ + self.user_agent@,
    {
        let mut p = self;
        p.user_agent = prepended_user_agent(prefix, p.user_agent.as_str());
        p
    }

    /// Configures reasoning: a toggle and a budget become the `thinking`
    /// member, an effort the `reasoning_effort` member.
    pub fn with_reasoning(self, config: ReasoningConfig) -> (r: OpenAIProvider)
        ensures
            r == reasons(self, config),
    {
        let mut p = self;
        match config {
            ReasoningConfig::Toggle(enabled) => {
                p.thinking = Some(
                    ThinkingState { enabled, preserve_history: false, budget_tokens: None },
                );
                p.reasoning_effort = None;
            },
            ReasoningConfig::Budget(n) => {
                p.thinking = Some(
                    ThinkingState {
                        enabled: true,
                        preserve_history: false,
                        budget_tokens: Some(n),
                    },
                );
                p.reasoning_effort = None;
            },
            ReasoningConfig::Effort(e) => {
                p.reasoning_effort = Some(e);
                p.thinking = None;
            },
        }
        p
    }

    /// Sets the reasoning level beside whatever thinking mode is set.
    pub fn with_reasoning_effort(self, effort: &str) -> (r: OpenAIProvider)
        ensures
            r == (OpenAIProvider { reasoning_effort: r.reasoning_effort, ..self }),
            opt_text(r.reasoning_effort) == Some(effort@),
    {
        let mut p = self;
        p.reasoning_effort = Some(effort.to_owned());
        p
    }

    /// Sets the thinking mode beside whatever reasoning level is set.
    pub fn with_thinking(self, mode: ThinkingMode) -> (r: OpenAIProvider)
        ensures
            r == (OpenAIProvider {
                thinking: Some(
                    ThinkingState {
                        enabled: mode.enabled,
                        preserve_history: mode.preserve_history,
                        budget_tokens: None,
                    },
                ),
                ..self
            }),
    {
        let mut p = self;
        p.thinking = Some(
            ThinkingState {
                enabled: mode.enabled,
                preserve_history: mode.preserve_history,
                budget_tokens: None,
            },
        );
        p
    }

    /// Asks for the reasoning of earlier turns to be kept, or not. Enables
    /// thinking where it is not configured.
    pub fn with_preserved_reasoning_history(self, preserve: bool) -> (r: OpenAIProvider)
        ensures
            r == (OpenAIProvider {
                thinking: Some(
                    match self.thinking {
                        Some(t) => ThinkingState { preserve_history: preserve, ..t },
                        None => ThinkingState {
                            enabled: true,
                            preserve_history: preserve,
                            budget_tokens: None,
                        },
                    },
                ),
                ..self
            }),
    {
        let mut p = self;
        p.thinking = match p.thinking {
            Some(t) => Some(
                ThinkingState {
                    enabled: t.enabled,
                    preserve_history: preserve,
                    budget_tokens: t.budget_tokens,
                },
            ),
            None => Some(
                ThinkingState { enabled: true, preserve_history: preserve, budget_tokens: None },
            ),
        };
        p
    }

    /// The base address.
    pub fn base_url(&self) -> (r: &str)
        ensures
            r@ == self.base_url@,
    {
        self.base_url.as_str()
    }

    /// The model.
    pub fn model_name(&self) -> (r: &str)
        ensures
            r@ == self.model@,
    {
        self.model.as_str()
    }

    /// Where the reasoning of earlier messages is replayed.
    pub fn reasoning_history_key(&self) -> (r: ReasoningHistoryKey)
        ensures
            r == self.reasoning_history_key,
    {
        self.reasoning_history_key
    }

    /// The size of the model's context, where it is known.
    pub fn context_window(&self) -> (r: Option<usize>)
        ensures
            r == self.context_window,
    {
        self.context_window
    }

    /// The `thinking` member of a request.
    pub fn thinking_config(&self) -> (r: Option<WireThinking>)
        ensures
            match r {
                Some(w) => self.thinking is Some && w.kind@ == kind_of(self.thinking->0)
                    && w.kept() == keep_of(self.thinking->0) && w.budget_tokens
                    == self.thinking->0.budget_tokens,
                None => self.thinking is None,
            },
    {
        match self.thinking {
            Some(t) => Some(
                WireThinking {
                    kind: if t.enabled {
                        "enabled"
                    } else {
                        "disabled"
                    },
                    keep: if t.preserve_history {
                        Some("all")
                    } else {
                        None
                    },
                    budget_tokens: t.budget_tokens,
                },
            ),
            None => None,
        }
    }

    /// Whether a backend that knows reasoning is addressed: one of the
    /// reasoning parameters is set.
    pub fn echo_reasoning(&self) -> (r: bool)
        ensures
            r == echoes(*self),
    {
        self.thinking.is_some() || self.reasoning_effort.is_some()
    }

    /// The `tool_choice` member of a request.
    pub fn tool_choice_value(&self, has_tools: bool) -> (r: Option<Json>)
        ensures
            opt_json(r) == choice_sent(*self, has_tools),
    {
        if !has_tools {
            return None;
        }
        match &self.tool_choice {
            Some(c) => Some(
                match c {
                    ToolChoice::Auto => Json::text("auto"),
                    ToolChoice::NoTool => Json::text("none"),
                    ToolChoice::Required => Json::text("required"),
                    ToolChoice::Tool(name) => {
                        let function = Json::Object(
                            JsonMap::new().with("name", Json::text(name.as_str())),
                        );
                        Json::Object(
                            JsonMap::new().with("type", Json::text("function")).with(
                                "function",
                                function,
                            ),
                        )
                    },
                },
            ),
            None => None,
        }
    }

    /// The `response_format` member of a request, with the schema as given.
    pub fn response_format_value(&self) -> (r: Option<Json>)
        ensures
            opt_json(r) == format_sent(*self),
    {
        match &self.structured_output {
            Some(so) => {
                let schema = Json::Object(
                    JsonMap::new().with("name", Json::text(so.name_or_default())).with(
                        "schema",
                        so.schema.copy(),
                    ).with("strict", Json::Bool(so.strict)),
                );
                Some(
                    Json::Object(
                        JsonMap::new().with("type", Json::text("json_schema")).with(
                            "json_schema",
                            schema,
                        ),
                    ),
                )
            },
            None => None,
        }
    }

    fn tools_json(tools: &Vec<ToolSpec>) -> (r: Option<Json>)
        ensures
            opt_json(r) == (if tools@.len() == 0 {
                None::<JsonView>
            } else {
                Some(
                    JsonView::Array(
                        tool_views(tools@).map_values(|t: ToolSpecView| wire_tool(t)),
                    ),
                )
            }),
    {
        if tools.len() == 0 {
            return None;
        }
        let mut out: Vec<Json> = Vec::new();
        let mut i: usize = 0;
        while i < tools.len()
            invariant
                i <= tools@.len(),
                out@.len() == i,
                forall|k: int| 0 <= k < i ==> json_view(#[trigger] out@[k]) == wire_tool(tools@[k]@),
            decreases tools@.len() - i,
        {
            let function = Json::Object(
                JsonMap::new().with("name", Json::text(tools[i].name.as_str())).with(
                    "description",
                    Json::text(tools[i].description.as_str()),
                ).with("parameters", tools[i].parameters_schema.copy()),
            );
            out.push(
                Json::Object(
                    JsonMap::new().with("type", Json::text("function")).with("function", function),
                ),
            );
            i = i + 1;
        }
        assert(items_view(out@) =~= tool_views(tools@).map_values(|t: ToolSpecView| wire_tool(t)));
        Some(Json::Array(out))
    }

    /// The body of a request, with the schemas of the tools and of the
    /// structured output as given.
    pub fn request_body(&self, messages: &Vec<Message>, tools: &Vec<ToolSpec>, stream: bool) -> (r:
        Json)
        ensures
            r@ == body_sent(*self, message_views(messages@), tool_views(tools@), stream),
    {
        let wire = wire_messages_json(messages, self.echo_reasoning(), self.reasoning_history_key);
        let mut m = JsonMap::new();
        m.insert("model", Json::text(self.model.as_str()));
        m.insert("messages", Json::Array(wire));
        m.put("tools", OpenAIProvider::tools_json(tools));
        m.put(
            "stream",
            if stream {
                Some(Json::Bool(true))
            } else {
                None
            },
        );
        m.put(
            "stream_options",
            if stream {
                Some(Json::Object(JsonMap::new().with("include_usage", Json::Bool(true))))
            } else {
                None
            },
        );
        m.put("reasoning_effort", Json::opt_text(&self.reasoning_effort));
        m.put(
            "thinking",
            match self.thinking_config() {
                Some(w) => Some(w.to_json()),
                None => None,
            },
        );
        m.put("temperature", opt_real_json(self.sampling.temperature.as_ref()));
        m.put("top_p", opt_real_json(self.sampling.top_p.as_ref()));
        m.put("frequency_penalty", opt_real_json(self.sampling.frequency_penalty.as_ref()));
        m.put("presence_penalty", opt_real_json(self.sampling.presence_penalty.as_ref()));
        m.put(
            "seed",
            match self.sampling.seed {
                Some(n) => Some(Json::uint(n)),
                None => None,
            },
        );
        m.put(
            "max_tokens",
            match self.sampling.max_tokens {
                Some(n) => Some(Json::uint(n as u64)),
                None => None,
            },
        );
        m.put("stop", self.sampling.stop_value());
        m.put("tool_choice", self.tool_choice_value(tools.len() > 0));
        m.put("response_format", self.response_format_value());
        let mut body = Json::Object(m);
        assert(body@->Object_0 == own_members(
            *self,
            message_views(messages@),
            tool_views(tools@),
            stream,
        ));
        merge_extra(&mut body, &self.sampling.extra);
        body
    }

    /// The address that requests go to.
    pub fn request_url(&self) -> (r: String)
        ensures
            r@ == endpoint(self.base_url@, "/chat/completions"@),
    {
        endpoint_url(self.base_url.as_str(), "/chat/completions")
    }

    /// The headers of a request.
    pub fn request_headers(&self) -> (r: Vec<(String, String)>)
        ensures
            header_views(r@) == headers_sent(self.user_agent@, self.api_key@),
    {
        let mut out: Vec<(String, String)> = Vec::new();
        push_header(&mut out, "User-Agent", self.user_agent.as_str());
        assert(header_views(out@) =~= seq![("User-Agent"@, self.user_agent@)]);
        if !self.api_key.as_str().is_empty() {
            let value = join2("Bearer ", self.api_key.as_str());
            push_header(&mut out, "authorization", value.as_str());
        }
        out
    }
}

/// Setting one reasoning dialect clears the others, whatever was set before.
pub proof fn law_dialects_exclude_each_other(
    p: OpenAIProvider,
    first: ReasoningConfig,
    second: ReasoningConfig,
)
    ensures
        reasons(reasons(p, first), second) == reasons(p, second),
        !(reasons(p, first).thinking is Some && reasons(p, first).reasoning_effort is Some),
        echoes(reasons(p, first)),
{
}

/// The default configuration sends the reasoning of an earlier assistant
/// message back under `reasoning_content`, and asks for no thinking itself.
pub proof fn law_default_replays_reasoning(
    p: OpenAIProvider,
    api_key: Seq<char>,
    ms: Seq<MessageView>,
    tools: Seq<ToolSpecView>,
    stream: bool,
    i: int,
    text: Seq<char>,
)
    requires
        is_default(p, api_key),
        0 <= i < ms.len(),
        ms[i].role == Role::Assistant,
        reasoning_text(ms[i]) == Some(text),
    ensures
        ({
            let sent = wire_message(ms[i], echoes(p), p.reasoning_history_key);
            let body = body_sent(p, ms, tools, stream);
            &&& member(sent, "reasoning_content"@) == Some(JsonView::Str(text))
            &&& member(body, "messages"@) matches Some(JsonView::Array(all)) && all.contains(sent)
            &&& member(body, "thinking"@) is None
        }),
{
    let key = p.reasoning_history_key;
    law_reasoning_is_replayed(ms[i], echoes(p), text);
    law_every_message_is_sent(ms, echoes(p), key, i);
    let own = own_members(p, ms, tools, stream);
    assert(own.union_prefer_right(p.sampling.extra@) =~= own);
    reveal_strlit("thinking");
    reveal_strlit("model");
    reveal_strlit("messages");
    reveal_strlit("tools");
    reveal_strlit("stream");
    reveal_strlit("stream_options");
    reveal_strlit("reasoning_effort");
    reveal_strlit("temperature");
    reveal_strlit("top_p");
    reveal_strlit("frequency_penalty");
    reveal_strlit("presence_penalty");
    reveal_strlit("seed");
    reveal_strlit("max_tokens");
    reveal_strlit("stop");
    reveal_strlit("tool_choice");
    reveal_strlit("response_format");
    assert("thinking"@.len() == 8 && "messages"@.len() == 8);
    assert("thinking"@[0] != "messages"@[0]);
    assert("model"@.len() == 5 && "tools"@.len() == 5 && "stream"@.len() == 6 && "top_p"@.len()
        == 5);
    assert("stream_options"@.len() == 14 && "reasoning_effort"@.len() == 16);
    assert("temperature"@.len() == 11 && "frequency_penalty"@.len() == 17);
    assert("presence_penalty"@.len() == 16 && "seed"@.len() == 4 && "max_tokens"@.len() == 10);
    assert("stop"@.len() == 4 && "tool_choice"@.len() == 11 && "response_format"@.len() == 15);
}

} // verus!
