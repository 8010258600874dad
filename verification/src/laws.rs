//! What holds of the contract over time: every state it reaches is well
//! formed, a claim is paid once, a round never pays out more than its pool,
//! and rounds do not see each other's claims.

use crate::contract::{after_execute, execute_refusal};
use crate::error::ContractError;
use crate::ledger::{
    claimed_stake, distinct_claims, lemma_unclaimed_has_no_record, ClaimView,
};
use crate::merkle::proof_texts;
use crate::model::{
    after_claim, after_reset, claim_refusal, initial, lemma_claim_keeps_well_formed,
    lemma_reset_keeps_well_formed, paid_out, reset_refusal, well_formed, StoreModel,
};
use crate::msg::ExecuteMsg;
use crate::payout::{lemma_payout_bounds, lemma_payout_superadditive, payout};
use crate::state::ConfigView;
use vstd::prelude::*;

verus! {

/// One request as the contract meets it: who sends what, and when.
pub struct Request {
    pub now: u64,
    pub sender: Seq<char>,
    pub msg: ExecuteMsg,
}

/// The state after a series of requests, each carried out or refused in its
/// turn.
pub open spec fn after_requests(s: StoreModel, requests: Seq<Request>) -> StoreModel
    decreases requests.len(),
{
    if requests.len() == 0 {
        s
    } else {
        let before = after_requests(s, requests.drop_last());
        let request = requests.last();
        if execute_refusal(before, request.sender, request.msg) is None {
            after_execute(before, request.now, request.sender, request.msg)
        } else {
            before
        }
    }
}

/// None of the requests asks for a new round.
pub open spec fn without_reset(requests: Seq<Request>) -> bool {
    forall|i: int| 0 <= i < requests.len() ==> !((#[trigger] requests[i]).msg is ResetAirdrop)
}

/// The state right after instantiation is well formed.
pub proof fn law_initial_state_is_well_formed(config: ConfigView)
    ensures
        well_formed(initial(config)),
{
}

/// Every accepted request leaves a well-formed state well formed, and the
/// round number never goes back: a reset advances it by one, nothing else
/// changes it.
pub proof fn law_requests_keep_well_formed(
    s: StoreModel,
    now: u64,
    sender: Seq<char>,
    msg: ExecuteMsg,
)
    requires
        well_formed(s),
        execute_refusal(s, sender, msg) is None,
    ensures
        well_formed(after_execute(s, now, sender, msg)),
        after_execute(s, now, sender, msg).state.current_round_id == if msg is ResetAirdrop {
            s.state.current_round_id + 1
        } else {
            s.state.current_round_id as int
        },
{
    match msg {
        ExecuteMsg::Claim { amount, proof } => {
            lemma_claim_keeps_well_formed(s, sender, amount, proof_texts(proof@));
        },
        ExecuteMsg::ResetAirdrop { merkle_root, total_stake } => {
            lemma_reset_keeps_well_formed(s, sender, now, merkle_root@, total_stake);
        },
        _ => {},
    }
}

/// Whatever requests arrive after instantiation, the state is well formed.
pub proof fn law_every_reachable_state_is_well_formed(config: ConfigView, requests: Seq<Request>)
    ensures
        well_formed(after_requests(initial(config), requests)),
    decreases requests.len(),
{
    if requests.len() > 0 {
        law_every_reachable_state_is_well_formed(config, requests.drop_last());
        let before = after_requests(initial(config), requests.drop_last());
        let request = requests.last();
        if execute_refusal(before, request.sender, request.msg) is None {
            law_requests_keep_well_formed(before, request.now, request.sender, request.msg);
        }
    }
}

/// A participant with a record in the active round is refused as having
/// claimed already, whatever stake and proof the request brings.
pub proof fn law_recorded_claim_is_refused(
    s: StoreModel,
    sender: Seq<char>,
    stake: u128,
    proof: Seq<Seq<char>>,
)
    requires
        s.round is Some,
        claimed_stake(s.claims, s.round.unwrap().round_id, sender) is Some,
    ensures
        claim_refusal(s, sender, stake, proof) == Some(ContractError::AlreadyClaimed),
{
}

/// No accepted request changes or removes a claim record: whoever has
/// claimed in a round has claimed in it, with the same stake, ever after.
pub proof fn law_claim_records_are_kept(
    s: StoreModel,
    now: u64,
    sender: Seq<char>,
    msg: ExecuteMsg,
    round_id: u64,
    participant: Seq<char>,
)
    requires
        execute_refusal(s, sender, msg) is None,
        claimed_stake(s.claims, round_id, participant) is Some,
    ensures
        claimed_stake(after_execute(s, now, sender, msg).claims, round_id, participant)
            == claimed_stake(s.claims, round_id, participant),
{
    match msg {
        ExecuteMsg::Claim { amount, proof } => {
            let added = ClaimView {
                round_id: s.round.unwrap().round_id,
                participant: sender,
                stake: amount,
            };
            assert(s.claims.push(added).last() == added);
            assert(s.claims.push(added).drop_last() =~= s.claims);
        },
        _ => {},
    }
}

/// A claim is paid once: after an accepted claim, and whatever requests
/// follow in the same round, every further claim of the same sender is
/// refused as made already, with a valid proof or without. Being refused, it
/// changes nothing and sends nothing.
pub proof fn law_claim_is_paid_once(
    s: StoreModel,
    sender: Seq<char>,
    stake: u128,
    proof: Seq<Seq<char>>,
    requests: Seq<Request>,
    second_stake: u128,
    second_proof: Seq<Seq<char>>,
)
    requires
        claim_refusal(s, sender, stake, proof) is None,
        without_reset(requests),
    ensures
        claim_refusal(
            after_requests(after_claim(s, sender, stake), requests),
            sender,
            second_stake,
            second_proof,
        ) == Some(ContractError::AlreadyClaimed),
{
    let claimed = after_claim(s, sender, stake);
    let added = ClaimView { round_id: s.round.unwrap().round_id, participant: sender, stake };
    assert(claimed.claims.last() == added);
    lemma_round_stays(claimed, requests);
    lemma_record_stays(claimed, requests, added.round_id, sender);
}

/// Without a reset the active round keeps its number, its pool and its
/// total stake.
pub proof fn lemma_round_stays(s: StoreModel, requests: Seq<Request>)
    requires
        s.round is Some,
        without_reset(requests),
    ensures
        after_requests(s, requests).round matches Some(round) && {
            &&& round.round_id == s.round.unwrap().round_id
            &&& round.total_amount == s.round.unwrap().total_amount
            &&& round.total_stake == s.round.unwrap().total_stake
        },
    decreases requests.len(),
{
    if requests.len() > 0 {
        let earlier = requests.drop_last();
        assert forall|i: int| 0 <= i < earlier.len() implies !((#[trigger] earlier[i]).msg
            is ResetAirdrop) by {
            assert(earlier[i] == requests[i]);
        }
        lemma_round_stays(s, earlier);
        assert(requests.last() == requests[requests.len() - 1]);
    }
}

/// A claim record outlasts every series of requests.
pub proof fn lemma_record_stays(
    s: StoreModel,
    requests: Seq<Request>,
    round_id: u64,
    participant: Seq<char>,
)
    requires
        claimed_stake(s.claims, round_id, participant) is Some,
    ensures
        claimed_stake(after_requests(s, requests).claims, round_id, participant) == claimed_stake(
            s.claims,
            round_id,
            participant,
        ),
    decreases requests.len(),
{
    if requests.len() > 0 {
        lemma_record_stays(s, requests.drop_last(), round_id, participant);
        let before = after_requests(s, requests.drop_last());
        let request = requests.last();
        if execute_refusal(before, request.sender, request.msg) is None {
            law_claim_records_are_kept(
                before,
                request.now,
                request.sender,
                request.msg,
                round_id,
                participant,
            );
        }
    }
}

/// Conservation: whatever requests arrive in a round, the round keeps its
/// pool and its total stake, has paid out no more than the pool, and has paid
/// out exactly the sum of the payouts of its claimants, rounded down one by
/// one, where no claimant is counted twice.
pub proof fn law_conservation(s: StoreModel, requests: Seq<Request>)
    requires
        well_formed(s),
        s.round is Some,
        without_reset(requests),
    ensures
        after_requests(s, requests).round matches Some(round) && {
            &&& round.total_amount == s.round.unwrap().total_amount
            &&& round.total_stake == s.round.unwrap().total_stake
            &&& round.claimed_amount <= round.total_amount
            &&& round.claimed_amount == paid_out(
                after_requests(s, requests).claims,
                round.round_id,
                round.total_amount as int,
                round.total_stake as int,
            )
        },
        distinct_claims(after_requests(s, requests).claims),
{
    lemma_round_stays(s, requests);
    lemma_well_formed_stays(s, requests);
}

/// Every series of requests leaves a well-formed state well formed.
pub proof fn lemma_well_formed_stays(s: StoreModel, requests: Seq<Request>)
    requires
        well_formed(s),
    ensures
        well_formed(after_requests(s, requests)),
    decreases requests.len(),
{
    if requests.len() > 0 {
        lemma_well_formed_stays(s, requests.drop_last());
        let before = after_requests(s, requests.drop_last());
        let request = requests.last();
        if execute_refusal(before, request.sender, request.msg) is None {
            law_requests_keep_well_formed(before, request.now, request.sender, request.msg);
        }
    }
}

/// Round isolation: in a round that was just opened nobody has claimed, so
/// no claim in it is refused as made already, also not of those who claimed
/// in earlier rounds.
pub proof fn law_new_round_has_no_claims(
    s: StoreModel,
    sender: Seq<char>,
    now: u64,
    merkle_root: Seq<char>,
    total_stake: u128,
    participant: Seq<char>,
    stake: u128,
    proof: Seq<Seq<char>>,
)
    requires
        well_formed(s),
        reset_refusal(s, sender, total_stake) is None,
    ensures
        after_reset(s, now, merkle_root, total_stake).round matches Some(round) && {
            &&& round.round_id == s.state.current_round_id + 1
            &&& claimed_stake(
                after_reset(s, now, merkle_root, total_stake).claims,
                round.round_id,
                participant,
            ) is None
        },
        claim_refusal(after_reset(s, now, merkle_root, total_stake), participant, stake, proof)
            != Some(ContractError::AlreadyClaimed),
{
    let opened = after_reset(s, now, merkle_root, total_stake);
    lemma_unclaimed_has_no_record(opened.claims, opened.round.unwrap().round_id, participant);
}

/// Only the backend opens rounds: a reset by anyone else is refused as
/// unauthorized, whatever else holds.
pub proof fn law_reset_needs_backend(s: StoreModel, sender: Seq<char>, total_stake: u128)
    requires
        sender != s.config.backend_wallet,
    ensures
        reset_refusal(s, sender, total_stake) == Some(ContractError::Unauthorized),
{
}

/// The sum of the stakes of the records of round `round_id`.
pub open spec fn staked(claims: Seq<ClaimView>, round_id: u64) -> int
    decreases claims.len(),
{
    if claims.len() == 0 {
        0
    } else {
        let stake = if claims.last().round_id == round_id {
            claims.last().stake as int
        } else {
            0
        };
        staked(claims.drop_last(), round_id) + stake
    }
}

/// Rounding down keeps the payouts together within the payout of the
/// stakes together.
pub proof fn lemma_paid_out_within_share(
    claims: Seq<ClaimView>,
    round_id: u64,
    total_amount: int,
    total_stake: int,
)
    requires
        0 <= total_amount,
        0 < total_stake,
    ensures
        0 <= staked(claims, round_id),
        0 <= paid_out(claims, round_id, total_amount, total_stake) <= payout(
            total_amount,
            staked(claims, round_id),
            total_stake,
        ),
    decreases claims.len(),
{
    if claims.len() == 0 {
        lemma_payout_bounds(total_amount, 0, total_stake);
        assert(total_amount * 0 == 0) by (nonlinear_arith);
    } else {
        let shorter = claims.drop_last();
        lemma_paid_out_within_share(shorter, round_id, total_amount, total_stake);
        if claims.last().round_id == round_id {
            let stake = claims.last().stake as int;
            lemma_payout_bounds(total_amount, stake, total_stake);
            lemma_payout_superadditive(total_amount, staked(shorter, round_id), stake, total_stake);
        }
    }
}

/// A snapshot whose stakes add up to no more than its total stake never
/// finds the pool short: a claim whose stake, with the stakes already
/// claimed, stays within the total stake is not refused for arithmetic.
pub proof fn law_pool_covers_honest_snapshot(
    s: StoreModel,
    sender: Seq<char>,
    stake: u128,
    proof: Seq<Seq<char>>,
)
    requires
        well_formed(s),
        s.round is Some,
        staked(s.claims, s.round.unwrap().round_id) + stake <= s.round.unwrap().total_stake,
    ensures
        claim_refusal(s, sender, stake, proof) != Some(ContractError::Arithmetic),
{
    let round = s.round.unwrap();
    let added = ClaimView { round_id: round.round_id, participant: sender, stake };
    let total_amount = round.total_amount as int;
    let total_stake = round.total_stake as int;
    let all = s.claims.push(added);
    assert(all.drop_last() =~= s.claims);
    assert(all.last() == added);
    lemma_paid_out_within_share(all, round.round_id, total_amount, total_stake);
    lemma_paid_out_within_share(s.claims, round.round_id, total_amount, total_stake);
    lemma_payout_bounds(total_amount, staked(all, round.round_id), total_stake);
    lemma_payout_bounds(total_amount, stake as int, total_stake);
}

} // verus!
