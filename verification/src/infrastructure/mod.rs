//! Infrastructure: the computing parts of the adapters (provider endpoints,
//! request shaping, status mapping, the provider registry, configuration
//! lookup, and the built-in tools' rules). Network, filesystem and process
//! work live in the application shell.

pub mod builtin_tools;
pub mod bus;
pub mod config;
pub mod llm;
pub mod system;
