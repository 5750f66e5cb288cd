//! The single-text view of a message's reasoning.

use vstd::prelude::*;
use crate::message::{plain_thinking, Message, MessageView, ThinkingContent};

verus! {

/// Which member of a request carries the reasoning of earlier assistant
/// messages. Backends disagree on whether it may be replayed, and where.
#[derive(Clone, Copy, Debug, PartialEq, Eq, Structural)]
pub enum ReasoningHistoryKey {
    /// Under `reasoning_content`. This is the default.
    ReasoningContent,
    /// Under `reasoning`.
    Reasoning,
    /// As the structured `reasoning_details`, verbatim.
    ReasoningDetails,
    /// Nowhere.
    Omit,
}

/// The text of the first thinking block, if there is one.
pub open spec fn reasoning_text(m: MessageView) -> Option<Seq<char>> {
    if m.thinking_content.len() == 0 {
        None
    } else {
        Some(m.thinking_content[0].text)
    }
}

/// The reasoning of a message as one text without a signature.
pub trait ReasoningContent {
    /// The text of the first thinking block, if there is one.
    fn reasoning_content(&self) -> Option<&str>;

    /// Replaces the thinking blocks by one that carries `text` and nothing
    /// else. An empty text gives a block too: it is not the same as none.
    fn set_reasoning_content(&mut self, text: String);
}

impl ReasoningContent for Message {
    fn reasoning_content(&self) -> (r: Option<&str>)
        ensures
            match r {
                Some(t) => reasoning_text(self@) == Some(t@),
                None => reasoning_text(self@) is None,
            },
    {
        if self.thinking_content.len() == 0 {
            None
        } else {
            assert(self@.thinking_content[0] == self.thinking_content@[0]@);
            Some(self.thinking_content[0].text.as_str())
        }
    }

    fn set_reasoning_content(&mut self, text: String)
        ensures
            final(self)@ == (MessageView {
                thinking_content: seq![plain_thinking(text@)],
                ..old(self)@
            }),
    {
        self.thinking_content = vec![ThinkingContent::new(text)];
        assert(self@.thinking_content =~= seq![plain_thinking(text@)]);
    }
}

/// What is set as reasoning is read back, also where it is empty.
pub proof fn law_reasoning_reads_back(m: MessageView, text: Seq<char>)
    ensures
        reasoning_text(
            MessageView { thinking_content: seq![plain_thinking(text)], ..m },
        ) == Some(text),
{
}

} // verus!
