//! Cron: schedule types, next-run computation, the in-memory job store, the
//! timer engine and session-bound delivery.

pub mod delivery;
pub mod expr;
pub mod schedule;
pub mod service;
pub mod store;
pub mod types;
