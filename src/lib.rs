//! Dispatch core of a message-driven chat bot: addressed-command parsing,
//! a handler registry with per-event fan-out and command routing, the
//! versioned factoid store with the decisions around its sandboxed
//! scripts, and reminders with the decisions of their scheduler.

pub mod error;
pub mod text;
pub mod plugin;
pub mod bot;
pub mod clock;
pub mod factoid;
pub mod randomizer;
pub mod remind;
pub mod utils;
