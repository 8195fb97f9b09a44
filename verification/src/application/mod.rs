//! Application layer: use cases and orchestration over the domain.

pub mod agent_metrics;
pub mod agent_observability;
pub mod demand_fingerprint;
pub mod error;
pub mod wizard;
pub mod tool_dispatch;
pub mod orchestrator;
pub mod model_router;
pub mod persona_agent;
pub mod governance;
pub mod persistence;
pub mod agent_runtime;
