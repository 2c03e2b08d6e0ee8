//! Verified core of the Lure agent framework: cron scheduling, sender pairing,
//! slash-command routing, agent turn decisions and the text handling they share.

use vstd::prelude::*;

pub mod agent;
pub mod text;
pub mod api;
pub mod bus;
pub mod channel;
pub mod cli;
pub mod cli_args;
pub mod command;
pub mod cron;
pub mod doc;
pub mod gateway;
pub mod interactive;
pub mod mcp;
pub mod memory;
pub mod pairing;
pub mod paths;
pub mod provider;

verus! {

/// Package version reported by the CLI and diagnostics.
pub fn version() -> (v: &'static str)
    ensures
        v@ == "0.1.0"@,
{
    "0.1.0"
}

} // verus!
