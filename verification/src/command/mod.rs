//! Slash commands: routing and the built-in command set.

pub mod builtin;
pub mod router;
