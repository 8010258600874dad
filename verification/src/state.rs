//! What the contract keeps between requests, apart from the claim ledger.

use vstd::prelude::*;

verus! {

/// The principals and outside contracts that the airdrop deals with.
/// Written once at instantiation; replaced only by the owner.
#[derive(Debug, PartialEq, Eq)]
pub struct Config {
    /// May replace the configuration.
    pub owner: String,
    /// May open a new round.
    pub backend_wallet: String,
    /// The reward token: payouts are transfers of it, and its receive hook
    /// announces funding.
    pub erth_token_contract: String,
    /// Code hash of the reward token contract.
    pub erth_token_hash: String,
    /// The allocation contract that is told of every claim.
    pub allocation_contract: String,
    /// Code hash of the allocation contract.
    pub allocation_hash: String,
}

/// A configuration as text.
pub struct ConfigView {
    pub owner: Seq<char>,
    pub backend_wallet: Seq<char>,
    pub erth_token_contract: Seq<char>,
    pub erth_token_hash: Seq<char>,
    pub allocation_contract: Seq<char>,
    pub allocation_hash: Seq<char>,
}

impl View for Config {
    type V = ConfigView;

    open spec fn view(&self) -> ConfigView {
        ConfigView {
            owner: self.owner@,
            backend_wallet: self.backend_wallet@,
            erth_token_contract: self.erth_token_contract@,
            erth_token_hash: self.erth_token_hash@,
            allocation_contract: self.allocation_contract@,
            allocation_hash: self.allocation_hash@,
        }
    }
}

impl Clone for Config {
    fn clone(&self) -> (copy: Self)
        ensures
            copy == *self,
    {
        Config {
            owner: self.owner.clone(),
            backend_wallet: self.backend_wallet.clone(),
            erth_token_contract: self.erth_token_contract.clone(),
            erth_token_hash: self.erth_token_hash.clone(),
            allocation_contract: self.allocation_contract.clone(),
            allocation_hash: self.allocation_hash.clone(),
        }
    }
}

/// The reward that waits for the next round, and the number of rounds
/// opened so far. Round 0 means that none has been opened.
#[derive(Clone, Copy, Debug, PartialEq, Eq, Structural)]
pub struct State {
    pub pending_reward: u128,
    pub current_round_id: u64,
}

/// The one active round. Opening the next round overwrites it.
#[derive(Debug, PartialEq, Eq)]
pub struct AirdropRound {
    pub round_id: u64,
    /// The published commitment to the stake snapshot, as hex.
    pub merkle_root: String,
    /// The pool of this round.
    pub total_amount: u128,
    /// The sum of all stakes in the snapshot.
    pub total_stake: u128,
    /// What has been paid out of the pool so far.
    pub claimed_amount: u128,
    /// Block time, in seconds, at which the round was opened.
    pub start_time: u64,
}

/// A round with its root as text.
pub struct RoundView {
    pub round_id: u64,
    pub merkle_root: Seq<char>,
    pub total_amount: u128,
    pub total_stake: u128,
    pub claimed_amount: u128,
    pub start_time: u64,
}

impl View for AirdropRound {
    type V = RoundView;

    open spec fn view(&self) -> RoundView {
        RoundView {
            round_id: self.round_id,
            merkle_root: self.merkle_root@,
            total_amount: self.total_amount,
            total_stake: self.total_stake,
            claimed_amount: self.claimed_amount,
            start_time: self.start_time,
        }
    }
}

impl Clone for AirdropRound {
    fn clone(&self) -> (copy: Self)
        ensures
            copy == *self,
    {
        AirdropRound {
            round_id: self.round_id,
            merkle_root: self.merkle_root.clone(),
            total_amount: self.total_amount,
            total_stake: self.total_stake,
            claimed_amount: self.claimed_amount,
            start_time: self.start_time,
        }
    }
}

} // verus!
