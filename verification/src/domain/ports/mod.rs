//! Ports: the boundaries the domain talks through (model providers, tool
//! registries, transcript stores, shared scratchpads).

pub mod llm_provider;
pub mod scratchpad_port;
pub mod session_store;
pub mod tool_registry;

pub use llm_provider::{CompletionRequest, CompletionResponse, LlmError, ProviderStatus, TokenUsage};
pub use scratchpad_port::ScratchpadPort;
pub use session_store::{AgentTranscript, SessionStore, SessionStoreError, SessionTranscript};
pub use tool_registry::ToolRegistry;
