//! Gateway WebSocket chat: slash commands, per-session routes, and frame handling.

pub mod chat_slash;
pub mod ws;
