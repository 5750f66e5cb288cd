//! Conversation, provider, memory, session and tool logic of the `sweet`
//! agent toolkit.

pub mod anthropic;
pub mod arguments;
pub mod base64_text;
pub mod cerebras;
pub mod embeddings;
pub mod emitted;
pub mod error;
pub mod gemini;
pub mod http;
pub mod json;
pub mod mcp;
pub mod memory;
pub mod message;
pub mod openai;
pub mod order;
pub mod reasoning;
pub mod sampling;
pub mod sandbox;
pub mod session;
pub mod sse;
pub mod structured_output;
pub mod text;
pub mod text_map;
pub mod tool;
pub mod tool_choice;
pub mod tool_derive;
pub mod tools;
