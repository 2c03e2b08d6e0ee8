//! Pairing: approval of direct-message senders by one-time codes.

pub mod data;
pub mod sorted;
pub mod store;
