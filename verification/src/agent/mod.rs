//! The agent: turn decisions, prompt context, skills, subagents and session
//! bookkeeping.

pub mod active;
pub mod context;
pub mod scheduler;
pub mod skills;
pub mod subagent;
pub mod templates;
pub mod turn;
