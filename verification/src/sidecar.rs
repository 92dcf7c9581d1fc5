//! The sidecar that runs beside each Xline node.

pub mod config;
pub mod health;
pub mod operator;
