//! The provider's configuration, and the requests it makes.

use vstd::prelude::*;
use crate::anthropic::caching::{apply_prompt_caching, cached_body};
use crate::anthropic::wire::{convert_messages, wire_messages};
use crate::error::{ProviderError, ProviderErrorView};
use crate::http::{
    default_agent, default_user_agent, endpoint, endpoint_url, header_views, prepended_user_agent,
    push_header, required_key,
};
use crate::json::{
    items_view, json_uint, json_view, no_members, object1, object2, object3, opt_json, opt_str,
    put, Json, JsonMap, JsonView,
};
use crate::message::{
    holds_file, message_views, system_prompt, tool_views, Message, MessageView, ToolSpec, ToolSpecView,
};
use crate::reasoning::ReasoningConfig;
use crate::sampling::{
    merge_extra, merged, nothing_set, opt_real, opt_real_json, opt_real_ref, stop_json, Real, SamplingConfig,
};
use crate::structured_output::StructuredOutput;
use crate::text::{join, join2, joined, opt_text, texts};
use crate::tool_choice::ToolChoice;

verus! {

pub const DEFAULT_BASE_URL: &'static str = "https://api.anthropic.com/v1";

pub const DEFAULT_API_KEY_ENV: &'static str = "ANTHROPIC_API_KEY";

pub const DEFAULT_MAX_TOKENS: usize = 4096;

pub const API_VERSION: &'static str = "2023-06-01";

/// The least budget that extended thinking can have.
pub const MIN_THINKING_BUDGET: usize = 1024;

/// The beta that structured output needs.
pub const STRUCTURED_OUTPUT_BETA: &'static str = "structured-outputs-2025-11-13";

/// The beta that file attachments need.
pub const PDF_BETA: &'static str = "pdfs-2024-09-25";

/// The `thinking` member of a request.
#[derive(Clone, Copy, Debug, PartialEq, Eq, Structural)]
pub enum WireThinking {
    Enabled { budget_tokens: usize },
    Adaptive,
    Disabled,
}

/// The JSON form of the `thinking` member.
pub open spec fn thinking_json(t: WireThinking) -> JsonView {
    match t {
        WireThinking::Enabled { budget_tokens } => object2(
            "type"@,
            JsonView::Str("enabled"@),
            "budget_tokens"@,
            json_uint(budget_tokens as u64),
        ),
        WireThinking::Adaptive => object1("type"@, JsonView::Str("adaptive"@)),
        WireThinking::Disabled => object1("type"@, JsonView::Str("disabled"@)),
    }
}

impl WireThinking {
    /// The JSON form of the `thinking` member.
    pub fn to_json(&self) -> (r: Json)
        ensures
            r@ == thinking_json(*self),
    {
        match self {
            WireThinking::Enabled { budget_tokens } => Json::Object(
                JsonMap::new().with("type", Json::text("enabled")).with(
                    "budget_tokens",
                    Json::uint(*budget_tokens as u64),
                ),
            ),
            WireThinking::Adaptive => Json::Object(
                JsonMap::new().with("type", Json::text("adaptive")),
            ),
            WireThinking::Disabled => Json::Object(
                JsonMap::new().with("type", Json::text("disabled")),
            ),
        }
    }
}

/// The `output_config` member of a request.
#[derive(Debug)]
pub struct OutputConfig {
    /// The reasoning level.
    pub effort: Option<String>,
    /// The structured-output schema.
    pub format: Option<Json>,
}

/// The JSON form of the `output_config` member.
pub open spec fn output_config_json(effort: Option<Seq<char>>, format: Option<JsonView>) -> JsonView {
    JsonView::Object(put(put(no_members(), "effort"@, opt_str(effort)), "format"@, format))
}

impl OutputConfig {
    /// The JSON form of the `output_config` member.
    pub fn to_json(self) -> (r: Json)
        ensures
            r@ == output_config_json(opt_text(self.effort), opt_json(self.format)),
    {
        let mut m = JsonMap::new();
        m.put("effort", Json::opt_text(&self.effort));
        m.put("format", self.format);
        Json::Object(m)
    }
}

/// The sampling members of a request, after the provider's constraints.
pub struct SamplingFields<'a> {
    pub temperature: Option<&'a Real>,
    pub top_p: Option<&'a Real>,
    pub top_k: Option<u32>,
}

/// Configuration of Anthropic's native `/v1/messages` API.
#[derive(Debug)]
pub struct AnthropicProvider {
    pub base_url: String,
    pub api_key: String,
    pub model: String,
    pub max_tokens: usize,
    pub user_agent: String,
    pub reasoning: Option<ReasoningConfig>,
    pub sampling: SamplingConfig,
    pub prompt_caching: bool,
    pub tool_choice: Option<ToolChoice>,
    pub structured_output: Option<StructuredOutput>,
    pub auth_token: Option<String>,
    pub extra_betas: Vec<String>,
}

/// Whether a configuration is the default one with the given API key and model.
pub open spec fn is_default(p: AnthropicProvider, api_key: Seq<char>, model: Seq<char>) -> bool {
    &&& p.base_url@ == DEFAULT_BASE_URL@
    &&& p.api_key@ == api_key
    &&& p.model@ == model
    &&& p.max_tokens == DEFAULT_MAX_TOKENS
    &&& p.user_agent@ == default_agent()
    &&& p.reasoning is None
    &&& nothing_set(p.sampling)
    &&& p.prompt_caching
    &&& p.tool_choice is None
    &&& p.structured_output is None
    &&& p.auth_token is None
    &&& p.extra_betas@.len() == 0
}

/// The output cap of a request: an explicit sampling override, else the
/// ceiling of the model.
pub open spec fn request_cap(p: AnthropicProvider) -> usize {
    match p.sampling.max_tokens {
        Some(n) => n,
        None => p.max_tokens,
    }
}

/// The thinking budget that is sent: the requested one, brought into
/// `1024 <= budget < cap`; zero where no budget is requested or the cap leaves
/// no room for one.
pub open spec fn budget_sent(p: AnthropicProvider) -> usize {
    match p.reasoning {
        Some(ReasoningConfig::Budget(n)) => if request_cap(p) <= MIN_THINKING_BUDGET {
            0
        } else if n < MIN_THINKING_BUDGET {
            MIN_THINKING_BUDGET
        } else if n >= request_cap(p) {
            (request_cap(p) - 1) as usize
        } else {
            n as usize
        },
        _ => 0,
    }
}

/// The `thinking` member of a request.
pub open spec fn thinking_sent(p: AnthropicProvider) -> Option<WireThinking> {
    match p.reasoning {
        Some(ReasoningConfig::Toggle(on)) => if on {
            Some(WireThinking::Adaptive)
        } else {
            Some(WireThinking::Disabled)
        },
        Some(ReasoningConfig::Budget(_)) => if budget_sent(p) == 0 {
            None
        } else {
            Some(WireThinking::Enabled { budget_tokens: budget_sent(p) })
        },
        _ => None,
    }
}

/// Whether the model is asked to think.
pub open spec fn thinks(p: AnthropicProvider) -> bool {
    thinking_sent(p) is Some && !(thinking_sent(p)->0 is Disabled)
}

/// The reasoning level that is sent.
pub open spec fn effort_sent(p: AnthropicProvider) -> Option<Seq<char>> {
    match p.reasoning {
        Some(ReasoningConfig::Effort(e)) => Some(e@),
        _ => None,
    }
}

/// The structured-output format that is sent. The schema is sent as given:
/// bringing it into the subset that the provider accepts is the caller's work.
pub open spec fn format_sent(p: AnthropicProvider) -> Option<JsonView> {
    match p.structured_output {
        Some(so) => Some(
            object2("type"@, JsonView::Str("json_schema"@), "schema"@, so.schema@),
        ),
        None => None,
    }
}

/// The tool choice that is sent.
pub open spec fn choice_sent(p: AnthropicProvider, has_tools: bool) -> Option<JsonView> {
    match p.tool_choice {
        Some(c) => if has_tools {
            Some(
                match c {
                    ToolChoice::Auto => object1("type"@, JsonView::Str("auto"@)),
                    ToolChoice::NoTool => object1("type"@, JsonView::Str("none"@)),
                    ToolChoice::Required => object1("type"@, JsonView::Str("any"@)),
                    ToolChoice::Tool(name) => object2(
                        "type"@,
                        JsonView::Str("tool"@),
                        "name"@,
                        JsonView::Str(name@),
                    ),
                },
            )
        } else {
            None
        },
        None => None,
    }
}

/// Whether some message carries a file.
pub open spec fn some_file(ms: Seq<MessageView>) -> bool {
    exists|i: int| 0 <= i < ms.len() && holds_file((#[trigger] ms[i]).content)
}

/// The betas that are asked for.
pub open spec fn betas_sent(p: AnthropicProvider, ms: Seq<MessageView>) -> Seq<Seq<char>> {
    texts(p.extra_betas@) + (if p.structured_output is Some {
        seq![STRUCTURED_OUTPUT_BETA@]
    } else {
        Seq::empty()
    }) + (if some_file(ms) {
        seq![PDF_BETA@]
    } else {
        Seq::empty()
    })
}

/// The `temperature` that is sent: none while the model thinks.
pub open spec fn temperature_sent(p: AnthropicProvider) -> Option<JsonView> {
    if thinks(p) {
        None
    } else {
        opt_real(p.sampling.temperature)
    }
}

/// The `top_p` that is sent: none while the model thinks, and none beside a
/// temperature.
pub open spec fn top_p_sent(p: AnthropicProvider) -> Option<JsonView> {
    if thinks(p) || p.sampling.temperature is Some {
        None
    } else {
        opt_real(p.sampling.top_p)
    }
}

/// The `top_k` that is sent: none while the model thinks.
pub open spec fn top_k_sent(p: AnthropicProvider) -> Option<u32> {
    if thinks(p) {
        None
    } else {
        p.sampling.top_k
    }
}

/// An optional small integer as a JSON value.
pub open spec fn opt_uint(n: Option<u32>) -> Option<JsonView> {
    match n {
        Some(k) => Some(json_uint(k as u64)),
        None => None,
    }
}

/// A tool as a request describes it.
pub open spec fn wire_tool(t: ToolSpecView) -> JsonView {
    object3(
        "name"@,
        JsonView::Str(t.name),
        "description"@,
        JsonView::Str(t.description),
        "input_schema"@,
        t.parameters_schema,
    )
}

/// The members of a request that the configuration and the conversation make.
pub open spec fn own_members(
    p: AnthropicProvider,
    ms: Seq<MessageView>,
    tools: Seq<ToolSpecView>,
    stream: bool,
) -> Map<Seq<char>, JsonView> {
    let m = no_members().insert("model"@, JsonView::Str(p.model@));
    let m = m.insert("max_tokens"@, json_uint(request_cap(p) as u64));
    let m = put(m, "system"@, opt_str(system_prompt(ms)));
    let m = m.insert("messages"@, JsonView::Array(wire_messages(ms)));
    let m = put(
        m,
        "tools"@,
        if tools.len() == 0 {
            None
        } else {
            Some(JsonView::Array(tools.map_values(|t: ToolSpecView| wire_tool(t))))
        },
    );
    let m = put(
        m,
        "stream"@,
        if stream {
            Some(JsonView::Bool(true))
        } else {
            None
        },
    );
    let m = put(
        m,
        "thinking"@,
        match thinking_sent(p) {
            Some(t) => Some(thinking_json(t)),
            None => None,
        },
    );
    let m = put(
        m,
        "output_config"@,
        if effort_sent(p) is None && format_sent(p) is None {
            None
        } else {
            Some(output_config_json(effort_sent(p), format_sent(p)))
        },
    );
    let m = put(m, "temperature"@, temperature_sent(p));
    let m = put(m, "top_p"@, top_p_sent(p));
    let m = put(m, "top_k"@, opt_uint(top_k_sent(p)));
    let m = put(m, "stop_sequences"@, stop_json(p.sampling));
    put(m, "tool_choice"@, choice_sent(p, tools.len() > 0))
}

/// The body of a request.
pub open spec fn body_sent(
    p: AnthropicProvider,
    ms: Seq<MessageView>,
    tools: Seq<ToolSpecView>,
    stream: bool,
) -> JsonView {
    let plain = merged(JsonView::Object(own_members(p, ms, tools, stream)), p.sampling.extra@);
    if p.prompt_caching {
        cached_body(plain)
    } else {
        plain
    }
}

/// The headers of a request.
pub open spec fn headers_sent(p: AnthropicProvider, ms: Seq<MessageView>) -> Seq<
    (Seq<char>, Seq<char>),
> {
    let common = seq![
        ("anthropic-version"@, API_VERSION@),
        ("content-type"@, "application/json"@),
        ("User-Agent"@, p.user_agent@),
    ];
    let betas = betas_sent(p, ms);
    let with_betas = if betas.len() == 0 {
        common
    } else {
        common.push(("anthropic-beta"@, joined(betas, ","@)))
    };
    match p.auth_token {
        Some(token) => with_betas.push(("authorization"@, "Bearer "@ + token@)),
        None => if p.api_key@.len() > 0 {
            with_betas.push(("x-api-key"@, p.api_key@))
        } else {
            with_betas
        },
    }
}

impl AnthropicProvider {
    /// The default configuration with an API key, for a model.
    pub fn new(api_key: &str, model: &str) -> (r: AnthropicProvider)
        ensures
            is_default(r, api_key@, model@),
    {
        AnthropicProvider {
            base_url: DEFAULT_BASE_URL.to_owned(),
            api_key: api_key.to_owned(),
            model: model.to_owned(),
            max_tokens: DEFAULT_MAX_TOKENS,
            user_agent: default_user_agent(),
            reasoning: None,
            sampling: SamplingConfig::default(),
            prompt_caching: true,
            tool_choice: None,
            structured_output: None,
            auth_token: None,
            extra_betas: Vec::new(),
        }
    }

    /// The default configuration with the key that the environment holds, for a model.
    pub fn from_env(key: Option<String>, model: &str) -> (r: Result<AnthropicProvider, ProviderError>)
        ensures
            match r {
                Ok(p) => key is Some && is_default(p, key->0@, model@),
                Err(e) => key is None && e@ == (ProviderErrorView::MissingApiKey {
                    var: DEFAULT_API_KEY_ENV@,
                }),
            },
    {
        match required_key(DEFAULT_API_KEY_ENV, key) {
            Ok(k) => Ok(AnthropicProvider::new(k.as_str(), model)),
            Err(e) => Err(e),
        }
    }

    /// Authenticates with a bearer token, which takes precedence over the API
    /// key.
    pub fn with_auth_token(self, token: &str) -> (r: AnthropicProvider)
        ensures
            r == (AnthropicProvider { auth_token: r.auth_token, ..self }),
            opt_text(r.auth_token) == Some(token@),
    {
        let mut p = self;
        p.auth_token = Some(token.to_owned());
        p
    }

    /// Asks for a beta with every request.
    pub fn with_beta(self, beta: &str) -> (r: AnthropicProvider)
        ensures
            r == (AnthropicProvider { extra_betas: r.extra_betas, ..self }),
            texts(r.extra_betas@) == texts(self.extra_betas@).push(beta@),
    {
        let mut p = self;
        p.extra_betas.push(beta.to_owned());
        assert(texts(p.extra_betas@) =~= texts(self.extra_betas@).push(beta@));
        p
    }

    /// Constrains how the model chooses among tools.
    pub fn with_tool_choice(self, choice: ToolChoice) -> (r: AnthropicProvider)
        ensures
            r == (AnthropicProvider { tool_choice: Some(choice), ..self }),
    {
        let mut p = self;
        p.tool_choice = Some(choice);
        p
    }

    /// Constrains the answer to JSON that matches a schema.
    pub fn with_structured_output(self, output: StructuredOutput) -> (r: AnthropicProvider)
        ensures
            r == (AnthropicProvider { structured_output: Some(output), ..self }),
    {
        let mut p = self;
        p.structured_output = Some(output);
        p
    }

    /// Turns prompt caching on or off.
    pub fn with_prompt_caching(self, enabled: bool) -> (r: AnthropicProvider)
        ensures
            r == (AnthropicProvider { prompt_caching: enabled, ..self }),
    {
        let mut p = self;
        p.prompt_caching = enabled;
        p
    }

    /// Sets the sampling parameters. The frequency and presence penalties and
    /// the seed are not supported here and never sent.
    pub fn with_sampling(self, sampling: SamplingConfig) -> (r: AnthropicProvider)
        ensures
            r == (AnthropicProvider { sampling, ..self }),
    {
        let mut p = self;
        p.sampling = sampling;
        p
    }

    /// Sets the base address.
    pub fn with_base_url(self, url: &str) -> (r: AnthropicProvider)
        ensures
            r == (AnthropicProvider { base_url: r.base_url, ..self }),
            r.base_url@ == url@,
    {
        let mut p = self;
        p.base_url = url.to_owned();
        p
    }

    /// Sets the model.
    pub fn with_model(self, model: &str) -> (r: AnthropicProvider)
        ensures
            r == (AnthropicProvider { model: r.model, ..self }),
            r.model@ == model@,
    {
        let mut p = self;
        p.model = model.to_owned();
        p
    }

    /// Sets the output ceiling of the model.
    pub fn with_max_tokens(self, tokens: usize) -> (r: AnthropicProvider)
        ensures
            r == (AnthropicProvider { max_tokens: tokens, ..self }),
    {
        let mut p = self;
        p.max_tokens = tokens;
        p
    }

    /// Sets the user agent.
    pub fn with_user_agent(self, ua: &str) -> (r: AnthropicProvider)
        ensures
            r == (AnthropicProvider { user_agent: r.user_agent, ..self }),
            r.user_agent@ == ua@,
    {
        let mut p = self;
        p.user_agent = ua.to_owned();
        p
    }

    /// Puts `prefix` and a space in front of the user agent.
    pub fn prepend_user_agent(self, prefix: &str) -> (r: AnthropicProvider)
        ensures
            r == (AnthropicProvider { user_agent: r.user_agent, ..self }),
            r.user_agent@ == prefix@ + " "@ + self.user_agent@,
    {
        let mut p = self;
        p.user_agent = prepended_user_agent(prefix, p.user_agent.as_str());
        p
    }

    /// Configures reasoning. The caller picks the form that the model accepts:
    /// a toggle asks for adaptive or disabled thinking, a budget for thinking
    /// with that many tokens, and an effort sets the reasoning level.
    pub fn with_reasoning(self, config: ReasoningConfig) -> (r: AnthropicProvider)
        ensures
            r == (AnthropicProvider { reasoning: Some(config), ..self }),
    {
        let mut p = self;
        p.reasoning = Some(config);
        p
    }

    /// The base address.
    pub fn base_url(&self) -> (r: &str)
        ensures
            r@ == self.base_url@,
    {
        self.base_url.as_str()
    }

    /// The model.
    pub fn model_name(&self) -> (r: &str)
        ensures
            r@ == self.model@,
    {
        self.model.as_str()
    }

    /// The output ceiling of the model.
    pub fn max_tokens(&self) -> (r: usize)
        ensures
            r == self.max_tokens,
    {
        self.max_tokens
    }

    /// The output cap of a request.
    pub fn request_max_tokens(&self) -> (r: usize)
        ensures
            r == request_cap(*self),
    {
        match self.sampling.max_tokens {
            Some(n) => n,
            None => self.max_tokens,
        }
    }

    /// The thinking budget that is sent.
    pub fn thinking_budget(&self) -> (r: usize)
        ensures
            r == budget_sent(*self),
    {
        match &self.reasoning {
            Some(ReasoningConfig::Budget(n)) => {
                let requested: usize = *n as usize;
                let cap: usize = self.request_max_tokens();
                let upper: usize = if cap == 0 {
                    0
                } else {
                    cap - 1
                };
                if upper < MIN_THINKING_BUDGET {
                    0
                } else if requested < MIN_THINKING_BUDGET {
                    MIN_THINKING_BUDGET
                } else if requested > upper {
                    upper
                } else {
                    requested
                }
            },
            _ => 0,
        }
    }

    /// The `thinking` member of a request.
    pub fn wire_thinking(&self) -> (r: Option<WireThinking>)
        ensures
            r == thinking_sent(*self),
    {
        match &self.reasoning {
            Some(ReasoningConfig::Toggle(on)) => if *on {
                Some(WireThinking::Adaptive)
            } else {
                Some(WireThinking::Disabled)
            },
            Some(ReasoningConfig::Budget(_)) => {
                let budget: usize = self.thinking_budget();
                if budget == 0 {
                    None
                } else {
                    Some(WireThinking::Enabled { budget_tokens: budget })
                }
            },
            _ => None,
        }
    }

    /// The `output_config` member of a request: the reasoning level and the
    /// structured-output schema, or `None` where neither is set.
    pub fn wire_output_config(&self) -> (r: Option<OutputConfig>)
        ensures
            match r {
                Some(c) => (effort_sent(*self) is Some || format_sent(*self) is Some) && opt_text(
                    c.effort,
                ) == effort_sent(*self) && opt_json(c.format) == format_sent(*self),
                None => effort_sent(*self) is None && format_sent(*self) is None,
            },
    {
        let effort = match &self.reasoning {
            Some(ReasoningConfig::Effort(e)) => Some(e.clone()),
            _ => None,
        };
        let format = match &self.structured_output {
            Some(so) => Some(
                Json::Object(
                    JsonMap::new().with("type", Json::text("json_schema")).with(
                        "schema",
                        so.schema.copy(),
                    ),
                ),
            ),
            None => None,
        };
        if effort.is_none() && format.is_none() {
            return None;
        }
        Some(OutputConfig { effort, format })
    }

    /// The `tool_choice` member of a request.
    pub fn tool_choice_value(&self, has_tools: bool) -> (r: Option<Json>)
        ensures
            opt_json(r) == choice_sent(*self, has_tools),
    {
        if !has_tools {
            return None;
        }
        match &self.tool_choice {
            Some(c) => Some(
                Json::Object(
                    match c {
                        ToolChoice::Auto => JsonMap::new().with("type", Json::text("auto")),
                        ToolChoice::NoTool => JsonMap::new().with("type", Json::text("none")),
                        ToolChoice::Required => JsonMap::new().with("type", Json::text("any")),
                        ToolChoice::Tool(name) => JsonMap::new().with(
                            "type",
                            Json::text("tool"),
                        ).with("name", Json::text(name.as_str())),
                    },
                ),
            ),
            None => None,
        }
    }

    /// The betas that a request asks for: those added explicitly, the one for
    /// structured output, and the one for file attachments.
    pub fn betas(&self, messages: &Vec<Message>) -> (r: Vec<String>)
        ensures
            texts(r@) == betas_sent(*self, message_views(messages@)),
    {
        let ghost ms = message_views(messages@);
        let mut out: Vec<String> = Vec::new();
        let mut i: usize = 0;
        while i < self.extra_betas.len()
            invariant
                i <= self.extra_betas@.len(),
                out@ == self.extra_betas@.take(i as int),
            decreases self.extra_betas@.len() - i,
        {
            out.push(self.extra_betas[i].clone());
            i = i + 1;
            assert(out@ =~= self.extra_betas@.take(i as int));
        }
        assert(out@ =~= self.extra_betas@);
        let ghost start = texts(self.extra_betas@);
        let ghost middle = if self.structured_output is Some {
            seq![STRUCTURED_OUTPUT_BETA@]
        } else {
            Seq::empty()
        };
        if self.structured_output.is_some() {
            out.push(STRUCTURED_OUTPUT_BETA.to_owned());
        }
        assert(texts(out@) =~= start + middle);
        let mut k: usize = 0;
        let mut found = false;
        while k < messages.len() && !found
            invariant
                k <= messages@.len(),
                ms == message_views(messages@),
                found ==> some_file(ms),
                !found ==> forall|q: int| 0 <= q < k ==> !holds_file((#[trigger] ms[q]).content),
            decreases messages@.len() - k, !found as int,
        {
            assert(ms[k as int] == messages@[k as int]@);
            if messages[k].has_files() {
                found = true;
            }
            k = k + 1;
        }
        if found {
            out.push(PDF_BETA.to_owned());
        }
        assert(texts(out@) =~= betas_sent(*self, ms));
        out
    }

    /// The sampling members of a request: while the model thinks, neither
    /// temperature nor `top_p` nor `top_k`, and never temperature and `top_p`
    /// together.
    pub fn sampling_fields<'a>(&'a self) -> (r: SamplingFields<'a>)
        ensures
            opt_real_ref(r.temperature) == temperature_sent(*self),
            opt_real_ref(r.top_p) == top_p_sent(*self),
            r.top_k == top_k_sent(*self),
    {
        let thinking_on = match self.wire_thinking() {
            Some(WireThinking::Disabled) => false,
            Some(_) => true,
            None => false,
        };
        if thinking_on {
            return SamplingFields { temperature: None, top_p: None, top_k: None };
        }
        SamplingFields {
            temperature: self.sampling.temperature.as_ref(),
            top_p: if self.sampling.temperature.is_some() {
                None
            } else {
                self.sampling.top_p.as_ref()
            },
            top_k: self.sampling.top_k,
        }
    }

    fn tools_json(tools: &Vec<ToolSpec>) -> (r: Option<Json>)
        ensures
            opt_json(r) == (if tools@.len() == 0 {
                None::<JsonView>
            } else {
                Some(
                    JsonView::Array(
                        tool_views(tools@).map_values(|t: ToolSpecView| wire_tool(t)),
                    ),
                )
            }),
    {
        if tools.len() == 0 {
            return None;
        }
        let mut out: Vec<Json> = Vec::new();
        let mut i: usize = 0;
        while i < tools.len()
            invariant
                i <= tools@.len(),
                out@.len() == i,
                forall|k: int| 0 <= k < i ==> json_view(#[trigger] out@[k]) == wire_tool(tools@[k]@),
            decreases tools@.len() - i,
        {
            out.push(
                Json::Object(
                    JsonMap::new().with("name", Json::text(tools[i].name.as_str())).with(
                        "description",
                        Json::text(tools[i].description.as_str()),
                    ).with("input_schema", tools[i].parameters_schema.copy()),
                ),
            );
            i = i + 1;
        }
        assert(items_view(out@) =~= tool_views(tools@).map_values(|t: ToolSpecView| wire_tool(t)));
        Some(Json::Array(out))
    }

    /// The body of a request.
    pub fn request_body(&self, messages: &Vec<Message>, tools: &Vec<ToolSpec>, stream: bool) -> (r:
        Json)
        ensures
            r@ == body_sent(*self, message_views(messages@), tool_views(tools@), stream),
    {
        let (system, wire) = convert_messages(messages);
        let fields = self.sampling_fields();
        let mut m = JsonMap::new();
        m.insert("model", Json::text(self.model.as_str()));
        m.insert("max_tokens", Json::uint(self.request_max_tokens() as u64));
        m.put("system", Json::opt_text(&system));
        m.insert("messages", Json::Array(wire));
        m.put("tools", AnthropicProvider::tools_json(tools));
        m.put(
            "stream",
            if stream {
                Some(Json::Bool(true))
            } else {
                None
            },
        );
        m.put(
            "thinking",
            match self.wire_thinking() {
                Some(t) => Some(t.to_json()),
                None => None,
            },
        );
        m.put(
            "output_config",
            match self.wire_output_config() {
                Some(c) => Some(c.to_json()),
                None => None,
            },
        );
        m.put("temperature", opt_real_json(fields.temperature));
        m.put("top_p", opt_real_json(fields.top_p));
        m.put(
            "top_k",
            match fields.top_k {
                Some(k) => Some(Json::uint(k as u64)),
                None => None,
            },
        );
        m.put("stop_sequences", self.sampling.stop_value());
        m.put("tool_choice", self.tool_choice_value(tools.len() > 0));
        let mut body = Json::Object(m);
        assert(body@->Object_0 == own_members(
            *self,
            message_views(messages@),
            tool_views(tools@),
            stream,
        ));
        merge_extra(&mut body, &self.sampling.extra);
        if self.prompt_caching {
            apply_prompt_caching(&mut body);
        }
        body
    }

    /// The address that requests go to.
    pub fn request_url(&self) -> (r: String)
        ensures
            r@ == endpoint(self.base_url@, "/messages"@),
    {
        endpoint_url(self.base_url.as_str(), "/messages")
    }

    /// The headers of a request.
    pub fn request_headers(&self, messages: &Vec<Message>) -> (r: Vec<(String, String)>)
        ensures
            header_views(r@) == headers_sent(*self, message_views(messages@)),
    {
        let mut out: Vec<(String, String)> = Vec::new();
        push_header(&mut out, "anthropic-version", API_VERSION);
        push_header(&mut out, "content-type", "application/json");
        push_header(&mut out, "User-Agent", self.user_agent.as_str());
        assert(header_views(out@) =~= seq![
            ("anthropic-version"@, API_VERSION@),
            ("content-type"@, "application/json"@),
            ("User-Agent"@, self.user_agent@),
        ]);
        let betas = self.betas(messages);
        assert(texts(betas@).len() == betas@.len());
        if betas.len() > 0 {
            let value = join(&betas, ",");
            push_header(&mut out, "anthropic-beta", value.as_str());
        }
        match &self.auth_token {
            Some(token) => {
                let value = join2("Bearer ", token.as_str());
                push_header(&mut out, "authorization", value.as_str());
            },
            None => {
                if !self.api_key.as_str().is_empty() {
                    push_header(&mut out, "x-api-key", self.api_key.as_str());
                }
            },
        }
        out
    }
}

/// A budget that is sent obeys the provider's rule: at least 1024, and less
/// than the output cap of the same request.
pub proof fn law_budget_obeys_the_rule(p: AnthropicProvider)
    requires
        thinking_sent(p) is Some,
        thinking_sent(p)->0 is Enabled,
    ensures
        MIN_THINKING_BUDGET <= thinking_sent(p)->0->budget_tokens < request_cap(p),
{
}

/// A budget within the rule is sent verbatim.
pub proof fn law_valid_budget_is_sent_verbatim(p: AnthropicProvider, n: u32)
    requires
        p.reasoning == Some(ReasoningConfig::Budget(n)),
        MIN_THINKING_BUDGET <= n < request_cap(p),
    ensures
        thinking_sent(p) == Some(WireThinking::Enabled { budget_tokens: n as usize }),
{
}

/// While the model thinks, no temperature, `top_p` or `top_k` is among the
/// members that the configuration makes; and temperature and `top_p` are never
/// there together.
pub proof fn law_sampling_constraints(
    p: AnthropicProvider,
    ms: Seq<MessageView>,
    tools: Seq<ToolSpecView>,
    stream: bool,
)
    ensures
        ({
            let m = own_members(p, ms, tools, stream);
            &&& thinks(p) ==> !m.dom().contains("temperature"@) && !m.dom().contains("top_p"@)
                && !m.dom().contains("top_k"@)
            &&& !(m.dom().contains("temperature"@) && m.dom().contains("top_p"@))
        }),
{
    reveal_strlit("model");
    reveal_strlit("max_tokens");
    reveal_strlit("system");
    reveal_strlit("messages");
    reveal_strlit("tools");
    reveal_strlit("stream");
    reveal_strlit("thinking");
    reveal_strlit("output_config");
    reveal_strlit("temperature");
    reveal_strlit("top_p");
    reveal_strlit("top_k");
    reveal_strlit("stop_sequences");
    reveal_strlit("tool_choice");
    assert("temperature"@.len() == 11 && "tool_choice"@.len() == 11);
    assert("temperature"@[1] != "tool_choice"@[1]);
    assert("top_p"@.len() == 5 && "top_k"@.len() == 5 && "tools"@.len() == 5 && "model"@.len() == 5);
    assert("top_p"@[4] != "top_k"@[4]);
    assert("top_p"@[2] != "tools"@[2] && "top_k"@[2] != "tools"@[2]);
    assert("top_p"@[0] != "model"@[0] && "top_k"@[0] != "model"@[0]);
}

} // verus!
