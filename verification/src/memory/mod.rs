//! Memory: the long-term memory files, the history log and its consolidation.

pub mod store;
pub mod strip;
