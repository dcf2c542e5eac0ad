//! A protocol-translating gateway core: OpenAI-style chat-completion
//! requests in, a cookie-authenticated conversational web backend behind.
//!
//! The library holds the verified heart of the gateway: per-client admission
//! control over sliding request and token windows, the construction of the
//! outbound conversation call, the candidate-endpoint fallback, and the
//! normalizer that draws one answer string out of whatever the upstream
//! service returned. The HTTP server, the network client and the process
//! environment stay outside and speak to the library in plain values.

pub mod config;
pub mod handlers;
pub mod json;
pub mod middleware;
pub mod normalizer;
pub mod openai_types;
pub mod proxy_service;
pub mod text;
pub mod utils;
