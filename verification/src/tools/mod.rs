//! The built-in tools.

pub mod calculator;
pub mod calculator_laws;
pub mod http_fetch;
pub mod time;
pub mod web_search;
