//! LLM provider adapters: what each one computes.

pub mod anthropic;
pub mod gemini;
pub mod ollama;
pub mod openai;
pub mod registry;
pub mod reply;

pub use registry::{FactoryError, ProviderKind, ProviderRegistry};
