//! OpenAI's chat-completions API and the endpoints compatible with it.

pub mod embeddings;
pub mod laws;
pub mod provider;
pub mod provider_laws;
pub mod reasoning;
pub mod response;
pub mod response_laws;
pub mod stream;
pub mod thinking;
pub mod wire;
pub mod wire_laws;
