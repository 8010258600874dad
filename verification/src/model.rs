//! The contract as a state machine over plain mathematical values: what
//! each request is refused for, and what it changes and answers otherwise.

use crate::decimal::decimal;
use crate::error::ContractError;
use crate::ledger::{
    claimed_stake, distinct_claims, is_claim_of, lemma_unclaimed_has_no_record, ClaimView,
};
use crate::merkle::{leaf_hash, proof_outcome};
use crate::msg::{IntentView, ReceiveMsg, ResponseView, SendMsg};
use crate::payout::{lemma_payout_bounds, payout, payout_defined};
use crate::state::{ConfigView, RoundView, State};
use vstd::prelude::*;

verus! {

/// The allocation that every claim is reported against.
pub const CLAIM_ALLOCATION_ID: u32 = 4;

/// Everything the contract keeps between requests, as mathematical values.
pub struct StoreModel {
    pub config: ConfigView,
    pub state: State,
    pub round: Option<RoundView>,
    pub claims: Seq<ClaimView>,
}

/// The sum of the payouts that the records of round `round_id` earn from a
/// pool of `total_amount` shared among `total_stake`.
pub open spec fn paid_out(
    claims: Seq<ClaimView>,
    round_id: u64,
    total_amount: int,
    total_stake: int,
) -> int
    decreases claims.len(),
{
    if claims.len() == 0 {
        0
    } else {
        let earned = if claims.last().round_id == round_id {
            payout(total_amount, claims.last().stake as int, total_stake)
        } else {
            0
        };
        paid_out(claims.drop_last(), round_id, total_amount, total_stake) + earned
    }
}

/// What holds of the state after every request:
/// no participant has two records in one round; every record belongs to a
/// round that has been opened; and either no round has been opened, or the
/// active round is the latest one, has a total stake above zero, and has paid
/// out exactly the payouts of its records, which is no more than its pool.
pub open spec fn well_formed(s: StoreModel) -> bool {
    &&& distinct_claims(s.claims)
    &&& forall|i: int|
        0 <= i < s.claims.len() ==> 1 <= (#[trigger] s.claims[i]).round_id
            <= s.state.current_round_id
    &&& match s.round {
        None => s.state.current_round_id == 0,
        Some(round) => {
            &&& round.round_id == s.state.current_round_id
            &&& round.round_id >= 1
            &&& round.total_stake > 0
            &&& round.claimed_amount <= round.total_amount
            &&& round.claimed_amount == paid_out(
                s.claims,
                round.round_id,
                round.total_amount as int,
                round.total_stake as int,
            )
        },
    }
}

/// The state right after instantiation.
pub open spec fn initial(config: ConfigView) -> StoreModel {
    StoreModel {
        config,
        state: State { pending_reward: 0, current_round_id: 0 },
        round: None,
        claims: Seq::empty(),
    }
}

/// Why a claim of `sender` with `stake` and `proof` is refused, if it is.
/// The checks are made in this order: there is an active round; the sender
/// has no record in it; the proof leads from the sender's leaf to the root of
/// the round; the payout exists and the pool still holds it.
pub open spec fn claim_refusal(
    s: StoreModel,
    sender: Seq<char>,
    stake: u128,
    proof: Seq<Seq<char>>,
) -> Option<ContractError> {
    match s.round {
        None => Some(ContractError::NotFound),
        Some(round) => {
            if claimed_stake(s.claims, round.round_id, sender) is Some {
                Some(ContractError::AlreadyClaimed)
            } else if proof_outcome(
                proof,
                round.merkle_root,
                leaf_hash(sender, decimal(stake as nat)),
            ) != Some(true) {
                Some(ContractError::InvalidProof)
            } else if {
                ||| !payout_defined(
                    round.total_amount as int,
                    stake as int,
                    round.total_stake as int,
                )
                ||| round.claimed_amount + payout(
                    round.total_amount as int,
                    stake as int,
                    round.total_stake as int,
                ) > round.total_amount
            } {
                Some(ContractError::Arithmetic)
            } else {
                None
            }
        },
    }
}

/// What a claim with `stake` is paid in the active round.
pub open spec fn claim_amount(s: StoreModel, stake: u128) -> u128 {
    payout(
        s.round.unwrap().total_amount as int,
        stake as int,
        s.round.unwrap().total_stake as int,
    ) as u128
}

/// The state after an accepted claim: one more record, and the payout added
/// to what the round has paid out.
pub open spec fn after_claim(s: StoreModel, sender: Seq<char>, stake: u128) -> StoreModel {
    let round = s.round.unwrap();
    StoreModel {
        round: Some(
            RoundView {
                claimed_amount: (round.claimed_amount + claim_amount(s, stake)) as u128,
                ..round
            },
        ),
        claims: s.claims.push(
            ClaimView { round_id: round.round_id, participant: sender, stake },
        ),
        ..s
    }
}

/// The answer to an accepted claim: the transfer of the payout to the
/// sender, the notice to the allocation contract, and four attributes.
pub open spec fn claim_response(s: StoreModel, sender: Seq<char>, stake: u128) -> ResponseView {
    ResponseView {
        messages: seq![
            IntentView::Transfer {
                recipient: sender,
                amount: claim_amount(s, stake),
                code_hash: s.config.erth_token_hash,
                contract_addr: s.config.erth_token_contract,
            },
            IntentView::Notify {
                contract_addr: s.config.allocation_contract,
                code_hash: s.config.allocation_hash,
                msg: SendMsg::ClaimAllocation { allocation_id: CLAIM_ALLOCATION_ID },
            },
        ],
        attributes: seq![
            ("action"@, "claim"@),
            ("address"@, sender),
            ("claim_amount"@, decimal(claim_amount(s, stake) as nat)),
            ("round_id"@, decimal(s.round.unwrap().round_id as nat)),
        ],
    }
}

/// What the active round has not paid out; zero without a round.
pub open spec fn unclaimed(s: StoreModel) -> int {
    match s.round {
        Some(round) => round.total_amount - round.claimed_amount,
        None => 0,
    }
}

/// Why opening a round is refused, if it is: first, the sender is not the
/// backend; then, the total stake is zero, or the round number or the new
/// pool leaves its range.
pub open spec fn reset_refusal(
    s: StoreModel,
    sender: Seq<char>,
    total_stake: u128,
) -> Option<ContractError> {
    if sender != s.config.backend_wallet {
        Some(ContractError::Unauthorized)
    } else if {
        ||| total_stake == 0
        ||| s.state.current_round_id == u64::MAX
        ||| unclaimed(s) < 0
        ||| s.state.pending_reward + unclaimed(s) > u128::MAX
    } {
        Some(ContractError::Arithmetic)
    } else {
        None
    }
}

/// The round that a reset opens: the next number, the pending reward and
/// what was left unclaimed as its pool, nothing paid out yet.
pub open spec fn next_round(
    s: StoreModel,
    now: u64,
    merkle_root: Seq<char>,
    total_stake: u128,
) -> RoundView {
    RoundView {
        round_id: (s.state.current_round_id + 1) as u64,
        merkle_root,
        total_amount: (s.state.pending_reward + unclaimed(s)) as u128,
        total_stake,
        claimed_amount: 0,
        start_time: now,
    }
}

/// The state after an accepted reset: the new round in place of the old
/// one, the round counter advanced, no reward pending. The ledger is kept.
pub open spec fn after_reset(
    s: StoreModel,
    now: u64,
    merkle_root: Seq<char>,
    total_stake: u128,
) -> StoreModel {
    StoreModel {
        state: State {
            pending_reward: 0,
            current_round_id: (s.state.current_round_id + 1) as u64,
        },
        round: Some(next_round(s, now, merkle_root, total_stake)),
        ..s
    }
}

/// The answer to an accepted reset.
pub open spec fn reset_response(
    s: StoreModel,
    now: u64,
    merkle_root: Seq<char>,
    total_stake: u128,
) -> ResponseView {
    ResponseView {
        messages: Seq::empty(),
        attributes: seq![
            ("action"@, "reset_airdrop"@),
            ("new_round_id"@, decimal((s.state.current_round_id + 1) as nat)),
            ("merkle_root"@, merkle_root),
            ("total_amount"@, decimal((s.state.pending_reward + unclaimed(s)) as nat)),
            ("unclaimed_rollover"@, decimal(unclaimed(s) as nat)),
        ],
    }
}

/// Why a funding notification is refused, if it is: first, the sender is
/// not the reward token; then, the payload did not decode; then, the pending
/// reward would leave its range.
pub open spec fn receive_refusal(
    s: StoreModel,
    sender: Seq<char>,
    amount: u128,
    payload: Option<ReceiveMsg>,
) -> Option<ContractError> {
    if sender != s.config.erth_token_contract {
        Some(ContractError::Unauthorized)
    } else if payload is None {
        Some(ContractError::Decode)
    } else if s.state.pending_reward + amount > u128::MAX {
        Some(ContractError::Arithmetic)
    } else {
        None
    }
}

/// The state after accepted funding: `amount` more reward is pending.
pub open spec fn after_funding(s: StoreModel, amount: u128) -> StoreModel {
    StoreModel {
        state: State { pending_reward: (s.state.pending_reward + amount) as u128, ..s.state },
        ..s
    }
}

/// The answer to accepted funding.
pub open spec fn funding_response(amount: u128) -> ResponseView {
    ResponseView {
        messages: Seq::empty(),
        attributes: seq![
            ("action"@, "receive_allocation"@),
            ("amount"@, decimal(amount as nat)),
        ],
    }
}

/// Why replacing the configuration is refused, if it is.
pub open spec fn update_config_refusal(s: StoreModel, sender: Seq<char>) -> Option<ContractError> {
    if sender != s.config.owner {
        Some(ContractError::Unauthorized)
    } else {
        None
    }
}

/// The state after the configuration was replaced.
pub open spec fn after_update_config(s: StoreModel, config: ConfigView) -> StoreModel {
    StoreModel { config, ..s }
}

/// The answer to a replaced configuration.
pub open spec fn update_config_response() -> ResponseView {
    ResponseView { messages: Seq::empty(), attributes: seq![("action"@, "update_config"@)] }
}

/// The answer to instantiation.
pub open spec fn instantiate_response(owner: Seq<char>) -> ResponseView {
    ResponseView {
        messages: Seq::empty(),
        attributes: seq![("action"@, "instantiate"@), ("owner"@, owner)],
    }
}


/// A new record at the end of the ledger adds its payout, if it belongs to
/// the round, and nothing otherwise.
pub proof fn lemma_paid_out_push(
    claims: Seq<ClaimView>,
    added: ClaimView,
    round_id: u64,
    total_amount: int,
    total_stake: int,
)
    ensures
        paid_out(claims.push(added), round_id, total_amount, total_stake) == paid_out(
            claims,
            round_id,
            total_amount,
            total_stake,
        ) + if added.round_id == round_id {
            payout(total_amount, added.stake as int, total_stake)
        } else {
            0
        },
{
    assert(claims.push(added).drop_last() =~= claims);
    assert(claims.push(added).last() == added);
}

/// A round without records has paid out nothing.
pub proof fn lemma_paid_out_of_fresh_round(
    claims: Seq<ClaimView>,
    round_id: u64,
    total_amount: int,
    total_stake: int,
)
    requires
        forall|i: int| 0 <= i < claims.len() ==> (#[trigger] claims[i]).round_id != round_id,
    ensures
        paid_out(claims, round_id, total_amount, total_stake) == 0,
    decreases claims.len(),
{
    if claims.len() > 0 {
        let shorter = claims.drop_last();
        assert(forall|i: int| 0 <= i < shorter.len() ==> shorter[i] == claims[i]);
        lemma_paid_out_of_fresh_round(shorter, round_id, total_amount, total_stake);
        assert(claims.last() == claims[claims.len() - 1]);
    }
}

/// An accepted claim leaves the state well formed.
pub proof fn lemma_claim_keeps_well_formed(
    s: StoreModel,
    sender: Seq<char>,
    stake: u128,
    proof: Seq<Seq<char>>,
)
    requires
        well_formed(s),
        claim_refusal(s, sender, stake, proof) is None,
    ensures
        well_formed(after_claim(s, sender, stake)),
{
    let round = s.round.unwrap();
    let added = ClaimView { round_id: round.round_id, participant: sender, stake };
    let t = after_claim(s, sender, stake);
    lemma_unclaimed_has_no_record(s.claims, round.round_id, sender);
    lemma_paid_out_push(
        s.claims,
        added,
        round.round_id,
        round.total_amount as int,
        round.total_stake as int,
    );
    assert(distinct_claims(t.claims)) by {
        assert forall|i: int, j: int| 0 <= i < j < t.claims.len() implies !is_claim_of(
            #[trigger] t.claims[j],
            (#[trigger] t.claims[i]).round_id,
            t.claims[i].participant,
        ) by {
            if j < s.claims.len() {
                assert(t.claims[i] == s.claims[i] && t.claims[j] == s.claims[j]);
            } else {
                assert(t.claims[i] == s.claims[i]);
                assert(!is_claim_of(s.claims[i], round.round_id, sender));
            }
        }
    }
    assert forall|i: int| 0 <= i < t.claims.len() implies 1 <= (#[trigger] t.claims[i]).round_id
        <= t.state.current_round_id by {
        if i < s.claims.len() {
            assert(t.claims[i] == s.claims[i]);
        }
    }
    lemma_payout_bounds(round.total_amount as int, stake as int, round.total_stake as int);
}

/// An accepted reset leaves the state well formed: the new round starts
/// without records.
pub proof fn lemma_reset_keeps_well_formed(
    s: StoreModel,
    sender: Seq<char>,
    now: u64,
    merkle_root: Seq<char>,
    total_stake: u128,
)
    requires
        well_formed(s),
        reset_refusal(s, sender, total_stake) is None,
    ensures
        well_formed(after_reset(s, now, merkle_root, total_stake)),
{
    let t = after_reset(s, now, merkle_root, total_stake);
    let round = t.round.unwrap();
    lemma_paid_out_of_fresh_round(
        s.claims,
        round.round_id,
        round.total_amount as int,
        round.total_stake as int,
    );
}

} // verus!
