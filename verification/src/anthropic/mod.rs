//! Anthropic's native API.

pub mod caching;
pub mod laws;
pub mod provider;
pub mod provider_laws;
pub mod response;
pub mod response_laws;
pub mod stream;
pub mod stream_laws;
pub mod thinking;
pub mod wire;
pub mod wire_laws;
