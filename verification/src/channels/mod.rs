//! Channel-side slash handling: runtime slash commands and the Telegram control hub.

pub mod control_hub;
pub mod runtime_slash;
