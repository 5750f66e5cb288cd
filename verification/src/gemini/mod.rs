//! Google's Gemini API.

pub mod embeddings;
pub mod laws;
pub mod provider;
pub mod provider_laws;
pub mod response;
pub mod response_laws;
pub mod wire;
pub mod wire_laws;
