//! Presentation: what the command line and the IPC protocol compute. Reading
//! arguments and streams, printing, and running the duplex loop live in the
//! application shell.

pub mod cli;
pub mod ipc;
