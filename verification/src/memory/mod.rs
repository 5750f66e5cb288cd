//! Long-term memory: records, their filters and rankings, and the tools by
//! which a model uses them.

pub mod blob;
pub mod fts;
pub mod laws;
pub mod ranking;
pub mod record;
pub mod statements;
pub mod tools;
