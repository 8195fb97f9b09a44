//! Domain models: entities and value objects. No I/O.

pub mod agent_id;
pub mod message;

pub use agent_id::{AgentId, AgentIdError};
pub use message::{Message, MessageError, MessageRole};
pub mod persona;
pub use persona::{default_personas, Persona, PersonaError};
pub mod routing;
pub use routing::{route, PersonaMatch, Routing};
pub mod fsm;
pub mod rollback;
pub use fsm::{can_transition, FsmError, FsmStage, MicroProject};
pub use rollback::{CascadeStep, RollbackPlan};
pub mod str_map;
pub use str_map::StrMap;
pub mod config;
pub use config::{AgentBinding, ConfigError, MaestroConfig, ModelConfig, ProviderConfig, SystemConfig};
pub mod governance;
pub use governance::{validate_entries, GovernanceReport, REQUIRED_GOVERNANCE_ENTRIES};
pub mod memory;
pub use memory::ShortTermMemory;
pub mod scratchpad;
pub use scratchpad::{Scratchpad, ScratchpadEntry};
pub mod reflection;
pub mod thinking;
pub use reflection::ReflectionOutput;
pub use thinking::ThinkingOutput;
pub mod tool;
pub use tool::{ToolCall, ToolDefinition, ToolError, ToolKind, ToolResult};
