//! Verified core of a multi-backend LLM chat tool: incremental wire-format
//! decoders for streamed model output, a provider capability model with its
//! registry, and the two-agent conversation orchestrator.

pub mod decode;
pub mod json;
pub mod provider;
pub mod render;
pub mod session;
pub mod signal;
pub mod state;
pub mod theme;
pub mod wire;
