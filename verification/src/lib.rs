//! A ledger of unspent outputs under one block producer.
//!
//! Blocks are hashed, chained and sealed by proof of work; transfers are
//! signed, wait in a pending pool and are settled on the outputs when a block
//! is mined; rewards follow a halving schedule under a cap on issuance; and a
//! periodic levy puts transfers of its own into the same pool.
//!
//! A transfer moves whole base units, a hundred million to the coin; outputs,
//! rewards and balances are exact, in base units and dust of 2^-63 base unit.
//! Times are seconds since the Unix epoch, and identifiers are 128-bit
//! numbers. The store is an in-memory `database::Ledger`; every operation
//! says in its contract what the store holds afterwards.

pub mod blockchain;
pub mod config;
pub mod crypto;
pub mod database;
pub mod ledger;
pub mod mining;
pub mod models;
pub mod services;
pub mod text;
pub mod utils;
pub mod value;
