//! The entry points: instantiation, the four state-changing requests and
//! the three queries, each held to the state machine of `model`.
//!
//! No entry point asks anything of its caller. A request is either refused,
//! and then the store is left exactly as it was, or carried out in full.

use crate::access::{require_role, Role};
use crate::decimal::{decimal, to_decimal};
use crate::error::ContractError;
use crate::ledger::{claimed_stake, ClaimLedger, ClaimView};
use crate::merkle::{compute_leaf_hash, proof_texts, verify_merkle_proof};
use crate::model::{
    after_claim, after_funding, after_reset, after_update_config, claim_refusal, claim_response,
    funding_response, initial, instantiate_response, lemma_claim_keeps_well_formed,
    lemma_reset_keeps_well_formed, receive_refusal, reset_refusal, reset_response,
    update_config_refusal, update_config_response, well_formed, StoreModel, CLAIM_ALLOCATION_ID,
};
use crate::msg::{
    CurrentRoundResponse, ExecuteMsg, HasClaimedResponse, InstantiateMsg, Intent, QueryMsg,
    QueryResponse, ReceiveMsg, Response, ResponseView, SendMsg,
};
use crate::payout::compute_claim;
use crate::state::{AirdropRound, Config, ConfigView, State};
use vstd::prelude::*;

verus! {

/// Everything the contract keeps between requests.
#[derive(Clone, Debug, PartialEq, Eq)]
pub struct AirdropStore {
    pub config: Config,
    pub state: State,
    pub current_round: Option<AirdropRound>,
    pub claims: ClaimLedger,
}

impl View for AirdropStore {
    type V = StoreModel;

    open spec fn view(&self) -> StoreModel {
        StoreModel {
            config: self.config@,
            state: self.state,
            round: match self.current_round {
                Some(round) => Some(round@),
                None => None,
            },
            claims: self.claims@,
        }
    }
}

/// The configuration that an instantiation message asks for.
pub open spec fn configured(msg: InstantiateMsg) -> ConfigView {
    ConfigView {
        owner: msg.owner@,
        backend_wallet: msg.backend_wallet@,
        erth_token_contract: msg.erth_token_contract@,
        erth_token_hash: msg.erth_token_hash@,
        allocation_contract: msg.allocation_contract@,
        allocation_hash: msg.allocation_hash@,
    }
}

/// Sets the contract up: the configuration as given, no reward pending, no
/// round and no claims.
pub fn instantiate(msg: InstantiateMsg) -> (out: (AirdropStore, Response))
    ensures
        out.0@ == initial(configured(msg)),
        well_formed(out.0@),
        out.1@ == instantiate_response(msg.owner@),
{
    let response = Response::new()
        .add_attribute("action", "instantiate")
        .add_attribute("owner", msg.owner.as_str());
    let config = Config {
        owner: msg.owner,
        backend_wallet: msg.backend_wallet,
        erth_token_contract: msg.erth_token_contract,
        erth_token_hash: msg.erth_token_hash,
        allocation_contract: msg.allocation_contract,
        allocation_hash: msg.allocation_hash,
    };
    let state = State { pending_reward: 0, current_round_id: 0 };
    let store = AirdropStore { config, state, current_round: None, claims: ClaimLedger::new() };
    assert(response@.messages =~= instantiate_response(msg.owner@).messages);
    assert(response@.attributes =~= instantiate_response(msg.owner@).attributes);
    (store, response)
}

/// Adds the tokens that came with a funding notification to the reward
/// that waits for the next round.
pub fn receive_allocation(
    store: &mut AirdropStore,
    amount: u128,
) -> (r: Result<Response, ContractError>)
    ensures
        match r {
            Ok(response) => {
                &&& old(store).state.pending_reward + amount <= u128::MAX
                &&& final(store)@ == after_funding(old(store)@, amount)
                &&& response@ == funding_response(amount)
            },
            Err(e) => {
                &&& e == ContractError::Arithmetic
                &&& old(store).state.pending_reward + amount > u128::MAX
                &&& *final(store) == *old(store)
            },
        },
        well_formed(old(store)@) ==> well_formed(final(store)@),
{
    let pending = match store.state.pending_reward.checked_add(amount) {
        Some(sum) => sum,
        None => {
            return Err(ContractError::Arithmetic);
        },
    };
    store.state.pending_reward = pending;

    let response = Response::new()
        .add_attribute("action", "receive_allocation")
        .add_attribute("amount", to_decimal(amount).as_str());
    assert(response@.messages =~= funding_response(amount).messages);
    assert(response@.attributes =~= funding_response(amount).attributes);
    Ok(response)
}

/// Handles the receive hook of the reward token: only that token may call
/// it, and its payload must have decoded.
pub fn receive_dispatch(
    store: &mut AirdropStore,
    sender: &str,
    amount: u128,
    msg: Option<ReceiveMsg>,
) -> (r: Result<Response, ContractError>)
    ensures
        match r {
            Ok(response) => {
                &&& receive_refusal(old(store)@, sender@, amount, msg) is None
                &&& final(store)@ == after_funding(old(store)@, amount)
                &&& response@ == funding_response(amount)
            },
            Err(e) => {
                &&& receive_refusal(old(store)@, sender@, amount, msg) == Some(e)
                &&& *final(store) == *old(store)
            },
        },
        well_formed(old(store)@) ==> well_formed(final(store)@),
{
    // Verify it's from the reward token contract
    require_role(Role::FundingSource, sender, &store.config)?;

    match msg {
        None => Err(ContractError::Decode),
        Some(ReceiveMsg::AllocationSend { allocation_id: _ }) => receive_allocation(store, amount),
    }
}

/// Pays the sender the share of the active round that `stake_amount` earns,
/// once, if `proof` shows that the snapshot holds the sender with that stake.
pub fn execute_claim(
    store: &mut AirdropStore,
    sender: &str,
    stake_amount: u128,
    proof: &[String],
) -> (r: Result<Response, ContractError>)
    ensures
        match r {
            Ok(response) => {
                &&& claim_refusal(old(store)@, sender@, stake_amount, proof_texts(proof@)) is None
                &&& final(store)@ == after_claim(old(store)@, sender@, stake_amount)
                &&& response@ == claim_response(old(store)@, sender@, stake_amount)
            },
            Err(e) => {
                &&& claim_refusal(old(store)@, sender@, stake_amount, proof_texts(proof@))
                    == Some(e)
                &&& *final(store) == *old(store)
            },
        },
        well_formed(old(store)@) ==> well_formed(final(store)@),
{
    let round = match &store.current_round {
        Some(round) => round.clone(),
        None => {
            return Err(ContractError::NotFound);
        },
    };

    // Check if already claimed in this round
    if store.claims.stake_of(round.round_id, sender).is_some() {
        return Err(ContractError::AlreadyClaimed);
    }

    // Compute leaf hash (the tree commits to stake amounts, in decimal)
    let leaf_hash = compute_leaf_hash(sender, to_decimal(stake_amount).as_str());

    // Verify merkle proof
    if !verify_merkle_proof(proof, round.merkle_root.as_str(), leaf_hash.as_str())? {
        return Err(ContractError::InvalidProof);
    }

    // Calculate proportional claim amount: total_amount * user_stake / total_stake
    let claim_amount = compute_claim(stake_amount, round.total_stake, round.total_amount)?;

    // The round never pays out more than its pool
    let claimed_amount = match round.claimed_amount.checked_add(claim_amount) {
        Some(sum) => sum,
        None => {
            return Err(ContractError::Arithmetic);
        },
    };
    if claimed_amount > round.total_amount {
        return Err(ContractError::Arithmetic);
    }

    // Mark as claimed for this round
    store.claims.record_claim(round.round_id, sender, stake_amount)?;

    // Update claimed amount
    store.current_round = Some(
        AirdropRound {
            round_id: round.round_id,
            merkle_root: round.merkle_root,
            total_amount: round.total_amount,
            total_stake: round.total_stake,
            claimed_amount,
            start_time: round.start_time,
        },
    );

    // Transfer of the payout to the sender
    let transfer = Intent::Transfer {
        recipient: String::from_str(sender),
        amount: claim_amount,
        code_hash: store.config.erth_token_hash.clone(),
        contract_addr: store.config.erth_token_contract.clone(),
    };
    // Claim allocation from allocation contract
    let notify = Intent::Notify {
        contract_addr: store.config.allocation_contract.clone(),
        code_hash: store.config.allocation_hash.clone(),
        msg: SendMsg::ClaimAllocation { allocation_id: CLAIM_ALLOCATION_ID },
    };
    let response = Response::new()
        .add_message(transfer)
        .add_message(notify)
        .add_attribute("action", "claim")
        .add_attribute("address", sender)
        .add_attribute("claim_amount", to_decimal(claim_amount).as_str())
        .add_attribute("round_id", to_decimal(round.round_id as u128).as_str());
    proof {
        let pre = old(store)@;
        let expected = claim_response(pre, sender@, stake_amount);
        assert(response@.messages =~= expected.messages);
        assert(response@.attributes =~= expected.attributes);
        assert(store@ == after_claim(pre, sender@, stake_amount));
        if well_formed(pre) {
            lemma_claim_keeps_well_formed(pre, sender@, stake_amount, proof_texts(proof@));
        }
    }
    Ok(response)
}

/// Replaces the configuration. Only the owner may.
pub fn execute_update_config(
    store: &mut AirdropStore,
    sender: &str,
    config: Config,
) -> (r: Result<Response, ContractError>)
    ensures
        match r {
            Ok(response) => {
                &&& update_config_refusal(old(store)@, sender@) is None
                &&& final(store)@ == after_update_config(old(store)@, config@)
                &&& response@ == update_config_response()
            },
            Err(e) => {
                &&& update_config_refusal(old(store)@, sender@) == Some(e)
                &&& *final(store) == *old(store)
            },
        },
        well_formed(old(store)@) ==> well_formed(final(store)@),
{
    require_role(Role::Owner, sender, &store.config)?;

    store.config = config;

    let response = Response::new().add_attribute("action", "update_config");
    assert(response@.messages =~= update_config_response().messages);
    assert(response@.attributes =~= update_config_response().attributes);
    Ok(response)
}

/// Opens the next round: its pool is the pending reward and whatever the
/// round before left unclaimed. Only the backend may, and a request from
/// anyone else changes nothing.
pub fn execute_reset_airdrop(
    store: &mut AirdropStore,
    now: u64,
    sender: &str,
    merkle_root: String,
    total_stake: u128,
) -> (r: Result<Response, ContractError>)
    ensures
        match r {
            Ok(response) => {
                &&& reset_refusal(old(store)@, sender@, total_stake) is None
                &&& final(store)@ == after_reset(old(store)@, now, merkle_root@, total_stake)
                &&& response@ == reset_response(old(store)@, now, merkle_root@, total_stake)
            },
            Err(e) => {
                &&& reset_refusal(old(store)@, sender@, total_stake) == Some(e)
                &&& *final(store) == *old(store)
            },
        },
        sender@ != old(store).config.backend_wallet@ ==> {
            &&& r == Err::<Response, ContractError>(ContractError::Unauthorized)
            &&& *final(store) == *old(store)
        },
        well_formed(old(store)@) ==> well_formed(final(store)@),
{
    // Only backend wallet can reset
    require_role(Role::BackendOperator, sender, &store.config)?;

    if total_stake == 0 {
        return Err(ContractError::Arithmetic);
    }

    // Calculate unclaimed from previous round (if exists)
    let unclaimed = match &store.current_round {
        Some(prev_round) => match prev_round.total_amount.checked_sub(prev_round.claimed_amount) {
            Some(rest) => rest,
            None => {
                return Err(ContractError::Arithmetic);
            },
        },
        None => 0,
    };

    // Increment round
    let new_round_id = match store.state.current_round_id.checked_add(1) {
        Some(id) => id,
        None => {
            return Err(ContractError::Arithmetic);
        },
    };

    // New airdrop total = pending_reward + unclaimed from previous
    let new_total = match store.state.pending_reward.checked_add(unclaimed) {
        Some(sum) => sum,
        None => {
            return Err(ContractError::Arithmetic);
        },
    };

    let response = Response::new()
        .add_attribute("action", "reset_airdrop")
        .add_attribute("new_round_id", to_decimal(new_round_id as u128).as_str())
        .add_attribute("merkle_root", merkle_root.as_str())
        .add_attribute("total_amount", to_decimal(new_total).as_str())
        .add_attribute("unclaimed_rollover", to_decimal(unclaimed).as_str());

    store.current_round = Some(
        AirdropRound {
            round_id: new_round_id,
            merkle_root,
            total_amount: new_total,
            total_stake,
            claimed_amount: 0,
            start_time: now,
        },
    );

    // Old claims remain with their round_id key
    // New round uses new round_id, so all addresses can claim again
    store.state = State { pending_reward: 0, current_round_id: new_round_id };
    proof {
        let pre = old(store)@;
        let expected = reset_response(pre, now, merkle_root@, total_stake);
        assert(response@.messages =~= expected.messages);
        assert(response@.attributes =~= expected.attributes);
        assert(store@ == after_reset(pre, now, merkle_root@, total_stake));
        if well_formed(pre) {
            lemma_reset_keeps_well_formed(pre, sender@, now, merkle_root@, total_stake);
        }
    }
    Ok(response)
}

/// Why `msg` from `sender` is refused, if it is.
pub open spec fn execute_refusal(
    s: StoreModel,
    sender: Seq<char>,
    msg: ExecuteMsg,
) -> Option<ContractError> {
    match msg {
        ExecuteMsg::Claim { amount, proof } => {
            claim_refusal(s, sender, amount, proof_texts(proof@))
        },
        ExecuteMsg::ResetAirdrop { merkle_root, total_stake } => {
            reset_refusal(s, sender, total_stake)
        },
        ExecuteMsg::UpdateConfig { config } => update_config_refusal(s, sender),
        ExecuteMsg::Receive { sender: _, from: _, amount, msg, memo: _ } => {
            receive_refusal(s, sender, amount, msg)
        },
    }
}

/// The state after `msg` from `sender` was accepted at time `now`.
pub open spec fn after_execute(
    s: StoreModel,
    now: u64,
    sender: Seq<char>,
    msg: ExecuteMsg,
) -> StoreModel {
    match msg {
        ExecuteMsg::Claim { amount, proof } => after_claim(s, sender, amount),
        ExecuteMsg::ResetAirdrop { merkle_root, total_stake } => {
            after_reset(s, now, merkle_root@, total_stake)
        },
        ExecuteMsg::UpdateConfig { config } => after_update_config(s, config@),
        ExecuteMsg::Receive { sender: _, from: _, amount, msg, memo: _ } => {
            after_funding(s, amount)
        },
    }
}

/// The answer to `msg` from `sender`, accepted at time `now`.
pub open spec fn execute_response(
    s: StoreModel,
    now: u64,
    sender: Seq<char>,
    msg: ExecuteMsg,
) -> ResponseView {
    match msg {
        ExecuteMsg::Claim { amount, proof } => claim_response(s, sender, amount),
        ExecuteMsg::ResetAirdrop { merkle_root, total_stake } => {
            reset_response(s, now, merkle_root@, total_stake)
        },
        ExecuteMsg::UpdateConfig { config } => update_config_response(),
        ExecuteMsg::Receive { sender: _, from: _, amount, msg, memo: _ } => {
            funding_response(amount)
        },
    }
}

/// Carries out one state-changing request of `sender` at block time `now`.
pub fn execute(
    store: &mut AirdropStore,
    now: u64,
    sender: &str,
    msg: ExecuteMsg,
) -> (r: Result<Response, ContractError>)
    ensures
        match r {
            Ok(response) => {
                &&& execute_refusal(old(store)@, sender@, msg) is None
                &&& final(store)@ == after_execute(old(store)@, now, sender@, msg)
                &&& response@ == execute_response(old(store)@, now, sender@, msg)
            },
            Err(e) => {
                &&& execute_refusal(old(store)@, sender@, msg) == Some(e)
                &&& *final(store) == *old(store)
            },
        },
        well_formed(old(store)@) ==> well_formed(final(store)@),
{
    match msg {
        ExecuteMsg::Claim { amount, proof } => {
            execute_claim(store, sender, amount, proof.as_slice())
        },
        ExecuteMsg::ResetAirdrop { merkle_root, total_stake } => {
            execute_reset_airdrop(store, now, sender, merkle_root, total_stake)
        },
        ExecuteMsg::UpdateConfig { config } => execute_update_config(store, sender, config),
        ExecuteMsg::Receive { sender: _, from: _, amount, msg, memo: _ } => {
            receive_dispatch(store, sender, amount, msg)
        },
    }
}

/// Reports the active round.
pub fn query_current_round(store: &AirdropStore) -> (r: Result<CurrentRoundResponse, ContractError>)
    ensures
        match r {
            Ok(response) => store@.round == Some(response@),
            Err(e) => e == ContractError::NotFound && store@.round is None,
        },
{
    let round = match &store.current_round {
        Some(round) => round,
        None => {
            return Err(ContractError::NotFound);
        },
    };
    Ok(
        CurrentRoundResponse {
            round_id: round.round_id,
            merkle_root: round.merkle_root.clone(),
            total_amount: round.total_amount,
            total_stake: round.total_stake,
            claimed_amount: round.claimed_amount,
            start_time: round.start_time,
        },
    )
}

/// What is reported of `address` in the active round `round_id`: whether it
/// has claimed there, and the stake of that claim in decimal.
pub open spec fn reports_claim(
    response: HasClaimedResponse,
    claims: Seq<ClaimView>,
    round_id: u64,
    address: Seq<char>,
) -> bool {
    match claimed_stake(claims, round_id, address) {
        Some(stake) => {
            &&& response.has_claimed
            &&& response.amount matches Some(text) && text@ == decimal(stake as nat)
        },
        None => !response.has_claimed && response.amount is None,
    }
}

/// Reports whether `address` has claimed in the active round, and with
/// what stake.
pub fn query_has_claimed(
    store: &AirdropStore,
    address: &str,
) -> (r: Result<HasClaimedResponse, ContractError>)
    ensures
        match r {
            Ok(response) => {
                &&& store@.round matches Some(round)
                &&& reports_claim(response, store@.claims, round.round_id, address@)
            },
            Err(e) => e == ContractError::NotFound && store@.round is None,
        },
{
    let round = match &store.current_round {
        Some(round) => round,
        None => {
            return Err(ContractError::NotFound);
        },
    };
    let amount = store.claims.has_claimed(round.round_id, address);

    Ok(HasClaimedResponse { has_claimed: amount.is_some(), amount })
}

/// Reports the configuration.
pub fn query_config(store: &AirdropStore) -> (config: Config)
    ensures
        config == store.config,
{
    store.config.clone()
}

/// Answers one query.
pub fn query(store: &AirdropStore, msg: QueryMsg) -> (r: Result<QueryResponse, ContractError>)
    ensures
        match msg {
            QueryMsg::GetCurrentRound {  } => match r {
                Ok(QueryResponse::CurrentRound(response)) => store@.round == Some(response@),
                Ok(_) => false,
                Err(e) => e == ContractError::NotFound && store@.round is None,
            },
            QueryMsg::HasClaimed { address } => match r {
                Ok(QueryResponse::HasClaimed(response)) => {
                    &&& store@.round matches Some(round)
                    &&& reports_claim(response, store@.claims, round.round_id, address@)
                },
                Ok(_) => false,
                Err(e) => e == ContractError::NotFound && store@.round is None,
            },
            QueryMsg::GetConfig {  } => {
                r matches Ok(QueryResponse::Config(config)) && config == store.config
            },
        },
{
    match msg {
        QueryMsg::GetCurrentRound {  } => {
            Ok(QueryResponse::CurrentRound(query_current_round(store)?))
        },
        QueryMsg::HasClaimed { address } => {
            Ok(QueryResponse::HasClaimed(query_has_claimed(store, address.as_str())?))
        },
        QueryMsg::GetConfig {  } => Ok(QueryResponse::Config(query_config(store))),
    }
}

} // verus!
