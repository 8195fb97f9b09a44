//! Domain layer: pure business types and the ports the outer layers implement.

pub mod models;
pub mod ports;
