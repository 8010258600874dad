//! Round-based Merkle airdrop.
//!
//! Holders of a stake snapshot claim their share of a pooled reward. A claim
//! is admitted by a Merkle proof against the root published for the round,
//! paid in proportion to the stake, and recorded so that it is paid once.
//! Opening the next round carries over what the last one left unclaimed.
//!
//! - `merkle`, `tree`: leaf hashes, proof checking, and why it is sound.
//! - `payout`: the proportional share, rounded down.
//! - `ledger`: the claim records.
//! - `access`: who may do what.
//! - `state`, `msg`: what is kept, asked and answered.
//! - `model`: the contract as a state machine over mathematical values.
//! - `contract`: the entry points, each proved against the model.
//! - `laws`: what holds of every run of the state machine.
//! - `encoding`, `digest`, `decimal`, `error`: hex, SHA-256, decimal text, errors.

pub mod error;
pub mod encoding;
pub mod digest;
pub mod decimal;
pub mod merkle;
pub mod tree;
pub mod payout;
pub mod state;
pub mod access;
pub mod ledger;
pub mod msg;
pub mod model;
pub mod contract;
pub mod laws;
