//! An LLM agent framework: conversation messages, completion requests,
//! embeddings and similarity ranking, tool dispatch, agents and the
//! request shapes of the OpenAI and Anthropic APIs.
pub mod agent;
pub mod effect;
pub mod embedding;
pub mod error;
pub mod json;
pub mod model;
pub mod pipeline;
pub mod provider;
pub mod ranking;
pub mod text;
pub mod tool;
pub mod vector_store;
