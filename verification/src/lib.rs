//! A control surface for a single-node test ledger: warp the tip to a future
//! slot, inject account records, build and edit token-account records, and
//! override the on-chain clock, all over an in-memory model of the ledger
//! whose behaviour is stated in contracts and proved.

pub mod account;
pub mod clock_engine;
pub mod commitment;
pub mod epoch;
pub mod error;
pub mod fork_tree;
pub mod keys;
pub mod processor;
pub mod rent;
pub mod requests;
pub mod snapshot;
pub mod token;
pub mod warp;
