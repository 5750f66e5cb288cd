//! Cerebras Inference: the OpenAI protocol with reasoning controls of its own.

use vstd::prelude::*;
use crate::json::Json;
use crate::message::{
    message_views, tool_views, Message, MessageView, ToolSpec, ToolSpecView,
};
use crate::openai::provider::{body_sent, is_default_but_for_history, own_members, reasons, OpenAIProvider};
use crate::openai::reasoning::ReasoningHistoryKey;
use crate::reasoning::ReasoningConfig;
use crate::sampling::SamplingConfig;
use crate::structured_output::StructuredOutput;
use crate::text::opt_text;
use crate::tool_choice::ToolChoice;

verus! {

/// Configuration of Cerebras Inference.
///
/// Reasoning is controlled by `reasoning_effort` only: the endpoint refuses
/// the `thinking` member, and takes no reasoning of earlier messages back.
#[derive(Debug)]
pub struct CerebrasProvider {
    pub inner: OpenAIProvider,
}

impl CerebrasProvider {
    /// Whether neither a `thinking` member nor earlier reasoning can be sent.
    pub open spec fn wf(&self) -> bool {
        self.inner.thinking is None && self.inner.reasoning_history_key == ReasoningHistoryKey::Omit
    }

    /// The default configuration with an API key.
    pub fn new(api_key: &str) -> (r: CerebrasProvider)
        ensures
            is_default_but_for_history(r.inner, api_key@),
            r.wf(),
    {
        CerebrasProvider {
            inner: OpenAIProvider::new(api_key).with_reasoning_history_key(
                ReasoningHistoryKey::Omit,
            ),
        }
    }

    /// Sets the base address.
    pub fn with_base_url(self, url: &str) -> (r: CerebrasProvider)
        ensures
            r.inner == (OpenAIProvider { base_url: r.inner.base_url, ..self.inner }),
            r.inner.base_url@ == url@,
    {
        CerebrasProvider { inner: self.inner.with_base_url(url) }
    }

    /// Sets the model.
    pub fn with_model(self, model: &str) -> (r: CerebrasProvider)
        ensures
            r.inner == (OpenAIProvider { model: r.inner.model, ..self.inner }),
            r.inner.model@ == model@,
    {
        CerebrasProvider { inner: self.inner.with_model(model) }
    }

    /// Sets the size of the model's context.
    pub fn with_context_window(self, tokens: usize) -> (r: CerebrasProvider)
        ensures
            r.inner == (OpenAIProvider { context_window: Some(tokens), ..self.inner }),
    {
        CerebrasProvider { inner: self.inner.with_context_window(tokens) }
    }

    /// Sets the sampling parameters.
    pub fn with_sampling(self, sampling: SamplingConfig) -> (r: CerebrasProvider)
        ensures
            r.inner == (OpenAIProvider { sampling, ..self.inner }),
    {
        CerebrasProvider { inner: self.inner.with_sampling(sampling) }
    }

    /// Constrains how the model chooses among tools.
    pub fn with_tool_choice(self, choice: ToolChoice) -> (r: CerebrasProvider)
        ensures
            r.inner == (OpenAIProvider { tool_choice: Some(choice), ..self.inner }),
    {
        CerebrasProvider { inner: self.inner.with_tool_choice(choice) }
    }

    /// Constrains the answer to JSON that matches a schema.
    pub fn with_structured_output(self, output: StructuredOutput) -> (r: CerebrasProvider)
        ensures
            r.inner == (OpenAIProvider { structured_output: Some(output), ..self.inner }),
    {
        CerebrasProvider { inner: self.inner.with_structured_output(output) }
    }

    /// Configures reasoning. An effort is sent as it is, and reasoning that is
    /// turned off as the effort `none`. The models reason by default and have
    /// no budget, so turning it on or giving a budget changes nothing.
    pub fn with_reasoning(self, config: ReasoningConfig) -> (r: CerebrasProvider)
        ensures
            match config {
                ReasoningConfig::Effort(e) => r.inner == reasons(
                    self.inner,
                    ReasoningConfig::Effort(e),
                ),
                ReasoningConfig::Toggle(on) => if on {
                    r == self
                } else {
                    &&& r.inner == (OpenAIProvider {
                        thinking: None,
                        reasoning_effort: r.inner.reasoning_effort,
                        ..self.inner
                    })
                    &&& opt_text(r.inner.reasoning_effort) == Some("none"@)
                },
                ReasoningConfig::Budget(_) => r == self,
            },
            self.wf() ==> r.wf(),
    {
        let effort = match config {
            ReasoningConfig::Effort(e) => Some(e),
            ReasoningConfig::Toggle(on) => if on {
                None
            } else {
                Some("none".to_owned())
            },
            ReasoningConfig::Budget(_) => None,
        };
        match effort {
            Some(e) => CerebrasProvider {
                inner: self.inner.with_reasoning(ReasoningConfig::Effort(e)),
            },
            None => self,
        }
    }

    /// The size of the model's context, where it is known.
    pub fn context_window(&self) -> (r: Option<usize>)
        ensures
            r == self.inner.context_window,
    {
        self.inner.context_window()
    }

    /// The body of a request.
    pub fn request_body(&self, messages: &Vec<Message>, tools: &Vec<ToolSpec>, stream: bool) -> (r:
        Json)
        ensures
            r@ == body_sent(self.inner, message_views(messages@), tool_views(tools@), stream),
    {
        self.inner.request_body(messages, tools, stream)
    }
}

/// No request carries a `thinking` member of the provider's own.
pub proof fn law_thinking_is_never_sent(
    p: CerebrasProvider,
    ms: Seq<MessageView>,
    tools: Seq<ToolSpecView>,
    stream: bool,
)
    requires
        p.wf(),
    ensures
        !own_members(p.inner, ms, tools, stream).dom().contains("thinking"@),
{
    reveal_strlit("thinking");
    reveal_strlit("model");
    reveal_strlit("messages");
    reveal_strlit("tools");
    reveal_strlit("stream");
    reveal_strlit("stream_options");
    reveal_strlit("reasoning_effort");
    reveal_strlit("temperature");
    reveal_strlit("top_p");
    reveal_strlit("frequency_penalty");
    reveal_strlit("presence_penalty");
    reveal_strlit("seed");
    reveal_strlit("max_tokens");
    reveal_strlit("stop");
    reveal_strlit("tool_choice");
    reveal_strlit("response_format");
    assert("thinking"@.len() == 8 && "messages"@.len() == 8);
    assert("thinking"@[0] != "messages"@[0]);
    assert("model"@.len() == 5 && "tools"@.len() == 5 && "stream"@.len() == 6 && "top_p"@.len()
        == 5);
    assert("stream_options"@.len() == 14 && "reasoning_effort"@.len() == 16);
    assert("temperature"@.len() == 11 && "frequency_penalty"@.len() == 17);
    assert("presence_penalty"@.len() == 16 && "seed"@.len() == 4 && "max_tokens"@.len() == 10);
    assert("stop"@.len() == 4 && "tool_choice"@.len() == 11 && "response_format"@.len() == 15);
}

} // verus!
