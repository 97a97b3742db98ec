//! Verified core of the zeroclaw agent runtime: slash-command parsing, control-hub
//! planning, shell-profile resolution and validation, MCP allowlist policy,
//! session bookkeeping, and the small text transforms these rely on.

pub mod text;
pub mod shell;
pub mod tools;
pub mod channels;
pub mod gateway;
pub mod providers;
pub mod agent;
pub mod context;
