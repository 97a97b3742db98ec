//! Unified shell execution engine (profile-driven).

pub mod config;
pub mod engine;
pub mod pipeline;
pub mod profiles;
