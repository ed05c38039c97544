//! Orchestration of token airdrops and of the ownership snapshots they are
//! based on: one worker per wallet or asset, each retrying its remote
//! operation within a budget, and one collector that counts their outcomes
//! into a registry.

pub mod address;
pub mod airdrop;
pub mod cli_args;
pub mod collect;
pub mod holders;
pub mod mint_status;
pub mod query;
pub mod registry;
pub mod retry;
pub mod snapshot;
pub mod worker;
