//! LLM provider implementations.
//!
//! Each submodule shapes the requests of a specific provider's HTTP API
//! from the library's requests, and reads the library's responses back
//! out of the provider's replies.
pub mod anthropic;
pub mod openai;
