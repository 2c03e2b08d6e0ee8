//! Channels: sender access control and the shapes channels exchange with the agent.

pub mod access;
pub mod contract;
