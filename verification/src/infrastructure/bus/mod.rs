//! The event bus's replay history. Fan-out to live subscribers is the shell's
//! (an async broadcast channel); which events a late subscriber can replay is
//! decided here.

pub mod history;

pub use history::BusHistory;
