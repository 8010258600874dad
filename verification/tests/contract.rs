use merkle_airdrop::contract::{
    execute, execute_claim, execute_reset_airdrop, execute_update_config, instantiate, query,
    query_config, query_current_round, query_has_claimed, receive_allocation, receive_dispatch,
    AirdropStore,
};
use merkle_airdrop::error::ContractError;
use merkle_airdrop::ledger::ClaimLedger;
use merkle_airdrop::model::CLAIM_ALLOCATION_ID;
use merkle_airdrop::msg::{
    Attribute, CurrentRoundResponse, ExecuteMsg, HasClaimedResponse, InstantiateMsg, Intent,
    QueryMsg, QueryResponse, ReceiveMsg, Response, SendMsg,
};
use merkle_airdrop::state::{AirdropRound, Config, State};

const LEAF_A_100: &str = "0xf4cab41362e9f6d91efc764440bc61f5749366afdb1370c012e5f08a971c416c";
const LEAF_B_300: &str = "0x446e9dbe69a9e8878ccf472280ff064a1318886e1ea691b4e443dbd8fe8c241c";
const ROOT_A100_B300: &str = "0xa938c10c3f0bbc37dc9f54d0523307b5e03d44f5685fe0d8006b64046cd023a6";

const LEAF_A_4: &str = "0x042111036da8f00cb34fb3a0833c1afc2a15ccf87e268b39d3910e464629ae5c";
const LEAF_B_8: &str = "0x00bdd6e15ae01ba1096ba41ca04c3a556dd6fceadba9fc05d2670f0d27d6d141";
const ROOT_A4_B8: &str = "0x406bc67f32f3f75b892ac8f0ef52f5b7c6cc7112800099d1bc3039623fecf1a6";
const LEAF_A_2: &str = "0xc1e98686dc4c30cd06a2eee51fd954dce0ee62b67dad0d3eb788b1e664c5b362";

const LEAF_ALICE: &str = "0xd30f6b7524a0b6a31bdb998b80773c8b4a53ad460d5f1907c644ebeb6efb3aba";
const LEAF_BOB: &str = "0x1e12b60d0ed66b3cdfaba25fef0d63a611d113dff8403ee8b91e13e2ac532669";
const LEAF_CAROL: &str = "0x52c99b6ffd00f60c4111a5b31825a26d7369514c019d5b3dd15cee50d775e5ce";
const LEAF_DAVE: &str = "0xe0597063e8f84340098cf56639ad5009bd76758216801f498efc8b6082dc0930";
const NODE_ALICE_BOB: &str = "0x9e4bce7029db0307b6496fc3512d73b5b698972f4900a26bc089362247c728d5";
const NODE_CAROL_DAVE: &str = "0x4343586d10910edbcdefc2ece8b980115a798f08a3da150c6e3c3e754f5f0c2e";
const ROOT_FOUR: &str = "0xc5ff9bc02bdf222ef101dfcd3d74998d73189550ab1f803dbc85adbdfa19c3f1";

fn strings(items: &[&str]) -> Vec<String> {
    items.iter().map(|s| s.to_string()).collect()
}

fn attr(key: &str, value: &str) -> Attribute {
    Attribute { key: key.to_string(), value: value.to_string() }
}

fn instantiate_msg() -> InstantiateMsg {
    InstantiateMsg {
        owner: "owner".to_string(),
        backend_wallet: "backend".to_string(),
        erth_token_contract: "token".to_string(),
        erth_token_hash: "tokenhash".to_string(),
        allocation_contract: "alloc".to_string(),
        allocation_hash: "allochash".to_string(),
    }
}

fn fresh() -> AirdropStore {
    instantiate(instantiate_msg()).0
}

fn fund(store: &mut AirdropStore, amount: u128) {
    let payload = Some(ReceiveMsg::AllocationSend { allocation_id: 4 });
    assert!(receive_dispatch(store, "token", amount, payload).is_ok());
}

fn open_round(store: &mut AirdropStore, root: &str, total_stake: u128) {
    let opened = execute_reset_airdrop(store, 1_700_000_000, "backend", root.to_string(), total_stake);
    assert!(opened.is_ok());
}

fn round(store: &AirdropStore) -> &AirdropRound {
    store.current_round.as_ref().unwrap()
}

#[test]
fn instantiate_sets_config_and_zero_state() {
    let (store, response) = instantiate(instantiate_msg());
    assert_eq!(
        store.config,
        Config {
            owner: "owner".to_string(),
            backend_wallet: "backend".to_string(),
            erth_token_contract: "token".to_string(),
            erth_token_hash: "tokenhash".to_string(),
            allocation_contract: "alloc".to_string(),
            allocation_hash: "allochash".to_string(),
        }
    );
    assert_eq!(store.state, State { pending_reward: 0, current_round_id: 0 });
    assert_eq!(store.current_round, None);
    assert_eq!(store.claims, ClaimLedger::new());
    assert_eq!(
        response,
        Response {
            messages: vec![],
            attributes: vec![attr("action", "instantiate"), attr("owner", "owner")],
        }
    );
}

#[test]
fn end_to_end_two_leaf_round() {
    let mut store = fresh();
    fund(&mut store, 800);
    open_round(&mut store, ROOT_A100_B300, 400);
    assert_eq!(round(&store).total_amount, 800);

    let response = execute_claim(&mut store, "addrA", 100, &strings(&[LEAF_B_300])).unwrap();
    assert_eq!(
        response.messages,
        vec![
            Intent::Transfer {
                recipient: "addrA".to_string(),
                amount: 200,
                code_hash: "tokenhash".to_string(),
                contract_addr: "token".to_string(),
            },
            Intent::Notify {
                contract_addr: "alloc".to_string(),
                code_hash: "allochash".to_string(),
                msg: SendMsg::ClaimAllocation { allocation_id: 4 },
            },
        ]
    );
    assert_eq!(
        response.attributes,
        vec![
            attr("action", "claim"),
            attr("address", "addrA"),
            attr("claim_amount", "200"),
            attr("round_id", "1"),
        ]
    );
    assert_eq!(round(&store).claimed_amount, 200);

    let repeat = execute_claim(&mut store, "addrA", 100, &strings(&[LEAF_B_300]));
    assert_eq!(repeat, Err(ContractError::AlreadyClaimed));
    assert_eq!(round(&store).claimed_amount, 200);

    let response = execute_claim(&mut store, "addrB", 300, &strings(&[LEAF_A_100])).unwrap();
    assert_eq!(
        response.messages[0],
        Intent::Transfer {
            recipient: "addrB".to_string(),
            amount: 600,
            code_hash: "tokenhash".to_string(),
            contract_addr: "token".to_string(),
        }
    );
    assert_eq!(round(&store).claimed_amount, 800);
}

#[test]
fn the_allocation_reported_is_the_fixed_one() {
    assert_eq!(CLAIM_ALLOCATION_ID, 4);
}

#[test]
fn second_claim_is_refused_whatever_the_proof() {
    let mut store = fresh();
    fund(&mut store, 800);
    open_round(&mut store, ROOT_A100_B300, 400);
    assert!(execute_claim(&mut store, "addrA", 100, &strings(&[LEAF_B_300])).is_ok());
    let snapshot = store.clone();

    let refused = Err(ContractError::AlreadyClaimed);
    assert_eq!(execute_claim(&mut store, "addrA", 100, &strings(&[LEAF_B_300])), refused);
    assert_eq!(execute_claim(&mut store, "addrA", 100, &[]), refused);
    assert_eq!(execute_claim(&mut store, "addrA", 5, &strings(&["0xzz"])), refused);
    assert_eq!(execute_claim(&mut store, "addrA", u128::MAX, &strings(&[LEAF_B_300])), refused);
    assert_eq!(store, snapshot);
}

#[test]
fn claimed_amount_is_the_sum_of_rounded_payouts() {
    let mut store = fresh();
    fund(&mut store, 1001);
    open_round(&mut store, ROOT_FOUR, 100);

    let claims: [(&str, u128, [&str; 2], u128); 4] = [
        ("carol", 30, [LEAF_DAVE, NODE_ALICE_BOB], 300),
        ("alice", 10, [LEAF_BOB, NODE_CAROL_DAVE], 100),
        ("dave", 40, [LEAF_CAROL, NODE_ALICE_BOB], 400),
        ("bob", 20, [LEAF_ALICE, NODE_CAROL_DAVE], 200),
    ];
    let mut paid: u128 = 0;
    for (who, stake, proof, expected) in claims {
        let response = execute_claim(&mut store, who, stake, &strings(&proof)).unwrap();
        match &response.messages[0] {
            Intent::Transfer { recipient, amount, .. } => {
                assert_eq!(recipient, who);
                assert_eq!(*amount, expected);
            }
            other => panic!("unexpected intent {:?}", other),
        }
        paid += expected;
        assert_eq!(round(&store).claimed_amount, paid);
        assert!(round(&store).claimed_amount <= round(&store).total_amount);
    }
    assert_eq!(round(&store).claimed_amount, 1000);
    assert_eq!(round(&store).total_amount, 1001);
    assert_eq!(store.claims.len(), 4);

    // The rounding remainder is carried into the next round.
    fund(&mut store, 9);
    open_round(&mut store, ROOT_FOUR, 100);
    assert_eq!(round(&store).total_amount, 10);
}

#[test]
fn rollover_adds_unclaimed_to_pending() {
    let mut store = fresh();
    store.state = State { pending_reward: 50, current_round_id: 1 };
    store.current_round = Some(AirdropRound {
        round_id: 1,
        merkle_root: ROOT_A100_B300.to_string(),
        total_amount: 1000,
        total_stake: 10,
        claimed_amount: 400,
        start_time: 5,
    });

    let response =
        execute_reset_airdrop(&mut store, 77, "backend", ROOT_A4_B8.to_string(), 12).unwrap();
    assert_eq!(
        store.current_round,
        Some(AirdropRound {
            round_id: 2,
            merkle_root: ROOT_A4_B8.to_string(),
            total_amount: 650,
            total_stake: 12,
            claimed_amount: 0,
            start_time: 77,
        })
    );
    assert_eq!(store.state, State { pending_reward: 0, current_round_id: 2 });
    assert_eq!(
        response,
        Response {
            messages: vec![],
            attributes: vec![
                attr("action", "reset_airdrop"),
                attr("new_round_id", "2"),
                attr("merkle_root", ROOT_A4_B8),
                attr("total_amount", "650"),
                attr("unclaimed_rollover", "600"),
            ],
        }
    );
}

#[test]
fn rollover_after_claims_made_through_the_contract() {
    let mut store = fresh();
    fund(&mut store, 1000);
    open_round(&mut store, LEAF_A_4, 10);
    assert!(execute_claim(&mut store, "addrA", 4, &[]).is_ok());
    assert_eq!(round(&store).claimed_amount, 400);
    fund(&mut store, 50);
    assert_eq!(store.state.pending_reward, 50);

    open_round(&mut store, LEAF_A_4, 10);
    assert_eq!(round(&store).round_id, 2);
    assert_eq!(round(&store).total_amount, 650);
    assert_eq!(round(&store).claimed_amount, 0);
    assert_eq!(store.state.pending_reward, 0);
}

#[test]
fn first_round_has_number_one_and_the_pending_reward() {
    let mut store = fresh();
    fund(&mut store, 123);
    let response =
        execute_reset_airdrop(&mut store, 9, "backend", "0xab".to_string(), 1).unwrap();
    assert_eq!(round(&store).round_id, 1);
    assert_eq!(round(&store).total_amount, 123);
    assert_eq!(round(&store).start_time, 9);
    assert_eq!(store.state, State { pending_reward: 0, current_round_id: 1 });
    assert_eq!(response.attributes[1], attr("new_round_id", "1"));
    assert_eq!(response.attributes[4], attr("unclaimed_rollover", "0"));
}

#[test]
fn a_new_round_lets_everyone_claim_again() {
    let mut store = fresh();
    fund(&mut store, 1000);
    open_round(&mut store, LEAF_A_4, 10);
    assert!(execute_claim(&mut store, "addrA", 4, &[]).is_ok());
    assert_eq!(execute_claim(&mut store, "addrA", 4, &[]), Err(ContractError::AlreadyClaimed));

    fund(&mut store, 400);
    open_round(&mut store, LEAF_A_4, 10);
    assert_eq!(round(&store).total_amount, 1000);
    let response = execute_claim(&mut store, "addrA", 4, &[]).unwrap();
    assert_eq!(response.attributes[3], attr("round_id", "2"));
    assert_eq!(round(&store).claimed_amount, 400);

    // Both records are kept, each under its round.
    assert_eq!(store.claims.has_claimed(1, "addrA"), Some("4".to_string()));
    assert_eq!(store.claims.has_claimed(2, "addrA"), Some("4".to_string()));
    assert_eq!(store.claims.len(), 2);
}

#[test]
fn reset_by_anyone_but_the_backend_changes_nothing() {
    let mut store = fresh();
    fund(&mut store, 800);
    open_round(&mut store, ROOT_A100_B300, 400);
    assert!(execute_claim(&mut store, "addrA", 100, &strings(&[LEAF_B_300])).is_ok());
    fund(&mut store, 5);
    let snapshot = store.clone();

    for caller in ["owner", "token", "alloc", "addrA", "", "Backend", "backend "] {
        let r = execute_reset_airdrop(&mut store, 99, caller, "0xab".to_string(), 7);
        assert_eq!(r, Err(ContractError::Unauthorized));
        assert_eq!(store, snapshot);
        let r = execute_reset_airdrop(&mut store, 99, caller, "0xab".to_string(), 0);
        assert_eq!(r, Err(ContractError::Unauthorized));
        assert_eq!(store, snapshot);
    }
}

#[test]
fn reset_refuses_zero_total_stake() {
    let mut store = fresh();
    fund(&mut store, 10);
    let snapshot = store.clone();
    let r = execute_reset_airdrop(&mut store, 1, "backend", "0xab".to_string(), 0);
    assert_eq!(r, Err(ContractError::Arithmetic));
    assert_eq!(store, snapshot);
}

#[test]
fn reset_refuses_a_pool_beyond_128_bits() {
    let mut store = fresh();
    fund(&mut store, u128::MAX);
    open_round(&mut store, "0xab", 1);
    fund(&mut store, 1);
    let snapshot = store.clone();
    let r = execute_reset_airdrop(&mut store, 1, "backend", "0xab".to_string(), 1);
    assert_eq!(r, Err(ContractError::Arithmetic));
    assert_eq!(store, snapshot);
}

#[test]
fn reset_refuses_a_round_number_beyond_64_bits() {
    let mut store = fresh();
    store.state.current_round_id = u64::MAX;
    let snapshot = store.clone();
    let r = execute_reset_airdrop(&mut store, 1, "backend", "0xab".to_string(), 1);
    assert_eq!(r, Err(ContractError::Arithmetic));
    assert_eq!(store, snapshot);
}

#[test]
fn claim_without_a_round_is_not_found() {
    let mut store = fresh();
    let snapshot = store.clone();
    assert_eq!(execute_claim(&mut store, "addrA", 100, &[]), Err(ContractError::NotFound));
    assert_eq!(store, snapshot);
}

#[test]
fn claim_with_a_wrong_or_malformed_proof_is_invalid() {
    let mut store = fresh();
    fund(&mut store, 800);
    open_round(&mut store, ROOT_A100_B300, 400);
    let snapshot = store.clone();
    let invalid = Err(ContractError::InvalidProof);

    assert_eq!(execute_claim(&mut store, "addrA", 100, &[]), invalid);
    assert_eq!(execute_claim(&mut store, "addrA", 101, &strings(&[LEAF_B_300])), invalid);
    assert_eq!(execute_claim(&mut store, "addrC", 100, &strings(&[LEAF_B_300])), invalid);
    assert_eq!(execute_claim(&mut store, "addrA", 100, &strings(&[LEAF_A_100])), invalid);
    assert_eq!(execute_claim(&mut store, "addrA", 100, &strings(&["0x12345"])), invalid);
    assert_eq!(execute_claim(&mut store, "addrA", 100, &strings(&["proof"])), invalid);
    assert_eq!(store, snapshot);
}

#[test]
fn claim_against_a_malformed_root_is_invalid() {
    let mut store = fresh();
    fund(&mut store, 800);
    open_round(&mut store, "not a root", 400);
    let snapshot = store.clone();
    assert_eq!(
        execute_claim(&mut store, "addrA", 100, &strings(&[LEAF_B_300])),
        Err(ContractError::InvalidProof)
    );
    assert_eq!(store, snapshot);
}

#[test]
fn claim_is_refused_when_the_payout_leaves_128_bits() {
    let mut store = fresh();
    fund(&mut store, u128::MAX);
    open_round(&mut store, LEAF_A_2, 1);
    let snapshot = store.clone();
    assert_eq!(execute_claim(&mut store, "addrA", 2, &[]), Err(ContractError::Arithmetic));
    assert_eq!(store, snapshot);
}

#[test]
fn claim_is_refused_when_the_pool_is_short() {
    // The snapshot promises 4 + 8 out of a total stake of 10.
    let mut store = fresh();
    fund(&mut store, 100);
    open_round(&mut store, ROOT_A4_B8, 10);
    assert!(execute_claim(&mut store, "addrA", 4, &strings(&[LEAF_B_8])).is_ok());
    assert_eq!(round(&store).claimed_amount, 40);
    let snapshot = store.clone();
    assert_eq!(
        execute_claim(&mut store, "addrB", 8, &strings(&[LEAF_A_4])),
        Err(ContractError::Arithmetic)
    );
    assert_eq!(store, snapshot);
}

#[test]
fn funding_adds_to_the_pending_reward() {
    let mut store = fresh();
    let response = receive_allocation(&mut store, 70).unwrap();
    assert_eq!(store.state.pending_reward, 70);
    assert_eq!(
        response,
        Response {
            messages: vec![],
            attributes: vec![attr("action", "receive_allocation"), attr("amount", "70")],
        }
    );
    assert!(receive_allocation(&mut store, 30).is_ok());
    assert_eq!(store.state.pending_reward, 100);
    assert_eq!(store.state.current_round_id, 0);
}

#[test]
fn funding_beyond_128_bits_is_refused() {
    let mut store = fresh();
    assert!(receive_allocation(&mut store, u128::MAX).is_ok());
    let snapshot = store.clone();
    assert_eq!(receive_allocation(&mut store, 1), Err(ContractError::Arithmetic));
    assert_eq!(store, snapshot);
}

#[test]
fn receive_needs_the_reward_token_and_a_decoded_payload() {
    let mut store = fresh();
    let snapshot = store.clone();
    let payload = Some(ReceiveMsg::AllocationSend { allocation_id: 4 });

    assert_eq!(receive_dispatch(&mut store, "owner", 5, payload), Err(ContractError::Unauthorized));
    assert_eq!(receive_dispatch(&mut store, "alloc", 5, payload), Err(ContractError::Unauthorized));
    assert_eq!(receive_dispatch(&mut store, "owner", 5, None), Err(ContractError::Unauthorized));
    assert_eq!(receive_dispatch(&mut store, "token", 5, None), Err(ContractError::Decode));
    assert_eq!(store, snapshot);

    assert!(receive_dispatch(&mut store, "token", 5, payload).is_ok());
    assert_eq!(store.state.pending_reward, 5);
    let any_id = Some(ReceiveMsg::AllocationSend { allocation_id: 0 });
    assert!(receive_dispatch(&mut store, "token", 6, any_id).is_ok());
    assert_eq!(store.state.pending_reward, 11);
}

#[test]
fn update_config_is_for_the_owner() {
    let mut store = fresh();
    let snapshot = store.clone();
    let new_config = Config {
        owner: "owner2".to_string(),
        backend_wallet: "backend2".to_string(),
        erth_token_contract: "token2".to_string(),
        erth_token_hash: "tokenhash2".to_string(),
        allocation_contract: "alloc2".to_string(),
        allocation_hash: "allochash2".to_string(),
    };

    let r = execute_update_config(&mut store, "backend", new_config.clone());
    assert_eq!(r, Err(ContractError::Unauthorized));
    assert_eq!(store, snapshot);

    let r = execute_update_config(&mut store, "owner", new_config.clone());
    assert_eq!(
        r,
        Ok(Response { messages: vec![], attributes: vec![attr("action", "update_config")] })
    );
    assert_eq!(store.config, new_config);
    assert_eq!(store.state, snapshot.state);

    // The old principals have lost their roles.
    let r = execute_update_config(&mut store, "owner", new_config.clone());
    assert_eq!(r, Err(ContractError::Unauthorized));
    let r = execute_reset_airdrop(&mut store, 1, "backend", "0xab".to_string(), 1);
    assert_eq!(r, Err(ContractError::Unauthorized));
    assert!(execute_reset_airdrop(&mut store, 1, "backend2", "0xab".to_string(), 1).is_ok());
}

#[test]
fn execute_dispatches_every_message() {
    let mut store = fresh();
    let receive = ExecuteMsg::Receive {
        sender: "funder".to_string(),
        from: "funder".to_string(),
        amount: 800,
        msg: Some(ReceiveMsg::AllocationSend { allocation_id: 4 }),
        memo: None,
    };
    assert!(execute(&mut store, 10, "token", receive.clone()).is_ok());
    assert_eq!(execute(&mut store, 10, "funder", receive), Err(ContractError::Unauthorized));
    assert_eq!(store.state.pending_reward, 800);

    let reset =
        ExecuteMsg::ResetAirdrop { merkle_root: ROOT_A100_B300.to_string(), total_stake: 400 };
    assert_eq!(execute(&mut store, 11, "owner", reset.clone()), Err(ContractError::Unauthorized));
    assert!(execute(&mut store, 11, "backend", reset).is_ok());
    assert_eq!(round(&store).start_time, 11);

    let claim = ExecuteMsg::Claim { amount: 100, proof: strings(&[LEAF_B_300]) };
    let response = execute(&mut store, 12, "addrA", claim.clone()).unwrap();
    assert_eq!(response.attributes[2], attr("claim_amount", "200"));
    assert_eq!(execute(&mut store, 12, "addrA", claim), Err(ContractError::AlreadyClaimed));

    let mut config = store.config.clone();
    config.owner = "owner2".to_string();
    let update = ExecuteMsg::UpdateConfig { config: config.clone() };
    assert_eq!(execute(&mut store, 13, "addrA", update.clone()), Err(ContractError::Unauthorized));
    assert!(execute(&mut store, 13, "owner", update).is_ok());
    assert_eq!(store.config, config);
}

#[test]
fn queries_report_round_claims_and_config() {
    let mut store = fresh();
    assert_eq!(query_current_round(&store), Err(ContractError::NotFound));
    assert_eq!(query_has_claimed(&store, "addrA"), Err(ContractError::NotFound));
    assert_eq!(query(&store, QueryMsg::GetCurrentRound {}), Err(ContractError::NotFound));
    assert_eq!(query_config(&store), store.config);

    fund(&mut store, 800);
    open_round(&mut store, ROOT_A100_B300, 400);
    let expected_round = CurrentRoundResponse {
        round_id: 1,
        merkle_root: ROOT_A100_B300.to_string(),
        total_amount: 800,
        total_stake: 400,
        claimed_amount: 0,
        start_time: 1_700_000_000,
    };
    assert_eq!(query_current_round(&store), Ok(expected_round.clone()));
    assert_eq!(
        query(&store, QueryMsg::GetCurrentRound {}),
        Ok(QueryResponse::CurrentRound(expected_round))
    );
    assert_eq!(
        query_has_claimed(&store, "addrA"),
        Ok(HasClaimedResponse { has_claimed: false, amount: None })
    );

    assert!(execute_claim(&mut store, "addrA", 100, &strings(&[LEAF_B_300])).is_ok());
    let claimed = HasClaimedResponse { has_claimed: true, amount: Some("100".to_string()) };
    assert_eq!(query_has_claimed(&store, "addrA"), Ok(claimed.clone()));
    assert_eq!(
        query(&store, QueryMsg::HasClaimed { address: "addrA".to_string() }),
        Ok(QueryResponse::HasClaimed(claimed))
    );
    assert_eq!(
        query(&store, QueryMsg::HasClaimed { address: "addrB".to_string() }),
        Ok(QueryResponse::HasClaimed(HasClaimedResponse { has_claimed: false, amount: None }))
    );
    assert_eq!(query_current_round(&store).unwrap().claimed_amount, 200);
    assert_eq!(
        query(&store, QueryMsg::GetConfig {}),
        Ok(QueryResponse::Config(store.config.clone()))
    );

    // Only the active round is reported.
    open_round(&mut store, ROOT_A100_B300, 400);
    assert_eq!(
        query_has_claimed(&store, "addrA"),
        Ok(HasClaimedResponse { has_claimed: false, amount: None })
    );
    assert_eq!(query_current_round(&store).unwrap().round_id, 2);
}
