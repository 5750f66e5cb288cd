//! Errors of the model providers.

use vstd::prelude::*;
use crate::text::{decimal, join2, to_decimal};

verus! {

/// Why a request to a provider failed.
#[derive(Debug, PartialEq)]
pub enum ProviderError {
    /// The environment variable that holds the key is not set.
    MissingApiKey { var: String },
    /// The environment variable is configured but missing or empty.
    EmptyApiKey(String),
    /// The request did not get through.
    Network(String),
    /// The provider answered with a status that is not a success.
    Http { status: u16, body: String },
    /// The answer could not be read.
    Decode(String),
    /// The answer held no choice.
    EmptyResponse,
    /// The answer is from a role that is not known.
    UnknownRole(String),
}

/// The model of a provider error.
pub ghost enum ProviderErrorView {
    MissingApiKey { var: Seq<char> },
    EmptyApiKey(Seq<char>),
    Network(Seq<char>),
    Http { status: u16, body: Seq<char> },
    Decode(Seq<char>),
    EmptyResponse,
    UnknownRole(Seq<char>),
}

impl View for ProviderError {
    type V = ProviderErrorView;

    open spec fn view(&self) -> ProviderErrorView {
        match self {
            ProviderError::MissingApiKey { var } => ProviderErrorView::MissingApiKey { var: var@ },
            ProviderError::EmptyApiKey(v) => ProviderErrorView::EmptyApiKey(v@),
            ProviderError::Network(e) => ProviderErrorView::Network(e@),
            ProviderError::Http { status, body } => ProviderErrorView::Http {
                status: *status,
                body: body@,
            },
            ProviderError::Decode(e) => ProviderErrorView::Decode(e@),
            ProviderError::EmptyResponse => ProviderErrorView::EmptyResponse,
            ProviderError::UnknownRole(r) => ProviderErrorView::UnknownRole(r@),
        }
    }
}

/// The message shown for a provider error.
pub open spec fn provider_message(e: ProviderErrorView) -> Seq<char> {
    match e {
        ProviderErrorView::MissingApiKey { var } => "required environment variable `"@ + var
            + "` is not set"@,
        ProviderErrorView::EmptyApiKey(v) => "environment variable `"@ + v
            + "` is configured but missing or empty"@,
        ProviderErrorView::Network(m) => "network error: "@ + m,
        ProviderErrorView::Http { status, body } => "HTTP "@ + decimal(status as nat) + ": "@
            + body,
        ProviderErrorView::Decode(m) => "failed to decode response: "@ + m,
        ProviderErrorView::EmptyResponse => "response contained no choices"@,
        ProviderErrorView::UnknownRole(r) => "unsupported role from upstream: "@ + r,
    }
}

impl ProviderError {
    /// The message shown for the error.
    pub fn to_message(&self) -> (r: String)
        ensures
            r@ == provider_message(self@),
    {
        match self {
            ProviderError::MissingApiKey { var } => {
                let head = join2("required environment variable `", var.as_str());
                join2(head.as_str(), "` is not set")
            },
            ProviderError::EmptyApiKey(v) => {
                let head = join2("environment variable `", v.as_str());
                join2(head.as_str(), "` is configured but missing or empty")
            },
            ProviderError::Network(m) => join2("network error: ", m.as_str()),
            ProviderError::Http { status, body } => {
                let code = to_decimal(*status as u64);
                let head = join2("HTTP ", code.as_str());
                let head = join2(head.as_str(), ": ");
                join2(head.as_str(), body.as_str())
            },
            ProviderError::Decode(m) => join2("failed to decode response: ", m.as_str()),
            ProviderError::EmptyResponse => "response contained no choices".to_owned(),
            ProviderError::UnknownRole(r) => join2("unsupported role from upstream: ", r.as_str()),
        }
    }
}

/// The message of an error names its cause: whatever detail came with it, and
/// for a refused request the status and then the body.
pub proof fn law_messages_name_the_cause(e: ProviderErrorView)
    ensures
        match e {
            ProviderErrorView::MissingApiKey { var } => provider_message(e)
                == "required environment variable `"@ + var + "` is not set"@,
            ProviderErrorView::EmptyApiKey(var) => provider_message(e) == "environment variable `"@
                + var + "` is configured but missing or empty"@,
            ProviderErrorView::Network(m) => m.is_suffix_of(provider_message(e)),
            ProviderErrorView::Http { status, body } => body.is_suffix_of(provider_message(e)) && (
            "HTTP "@ + decimal(status as nat)).is_prefix_of(provider_message(e)),
            ProviderErrorView::Decode(m) => m.is_suffix_of(provider_message(e)),
            ProviderErrorView::EmptyResponse => provider_message(e).len() > 0,
            ProviderErrorView::UnknownRole(r) => r.is_suffix_of(provider_message(e)),
        },
{
    reveal_strlit("response contained no choices");
}

} // verus!
