//! Requests and replies, as plain values.

use crate::state::{Config, RoundView};
use vstd::prelude::*;

verus! {

/// Sets the contract up.
#[derive(Clone, Debug, PartialEq, Eq)]
pub struct InstantiateMsg {
    pub owner: String,
    pub backend_wallet: String,
    pub erth_token_contract: String,
    pub erth_token_hash: String,
    pub allocation_contract: String,
    pub allocation_hash: String,
}

/// The payload of a funding notification.
#[derive(Clone, Copy, Debug, PartialEq, Eq, Structural)]
pub enum ReceiveMsg {
    /// The tokens that came with the notification are reward for the next round.
    AllocationSend { allocation_id: u32 },
}

/// What the allocation contract is told.
#[derive(Clone, Copy, Debug, PartialEq, Eq, Structural)]
pub enum SendMsg {
    /// One claim was paid out of the given allocation.
    ClaimAllocation { allocation_id: u32 },
}

/// A request that may change state.
#[derive(Clone, Debug, PartialEq, Eq)]
pub enum ExecuteMsg {
    /// Claim the share of the active round that `amount` of stake earns.
    Claim { amount: u128, proof: Vec<String> },
    /// Open the next round (backend only).
    ResetAirdrop { merkle_root: String, total_stake: u128 },
    /// Replace the configuration (owner only).
    UpdateConfig { config: Config },
    /// Receive hook of the reward token. `msg` is the decoded payload, `None`
    /// when the payload could not be decoded.
    Receive {
        sender: String,
        from: String,
        amount: u128,
        msg: Option<ReceiveMsg>,
        memo: Option<String>,
    },
}

/// A request that only reads.
#[derive(Clone, Debug, PartialEq, Eq)]
pub enum QueryMsg {
    /// The active round.
    GetCurrentRound {  },
    /// Whether `address` has claimed in the active round.
    HasClaimed { address: String },
    /// The configuration.
    GetConfig {  },
}

/// The active round, as it is reported.
#[derive(Clone, Debug, PartialEq, Eq)]
pub struct CurrentRoundResponse {
    pub round_id: u64,
    pub merkle_root: String,
    pub total_amount: u128,
    pub total_stake: u128,
    pub claimed_amount: u128,
    pub start_time: u64,
}

impl View for CurrentRoundResponse {
    type V = RoundView;

    open spec fn view(&self) -> RoundView {
        RoundView {
            round_id: self.round_id,
            merkle_root: self.merkle_root@,
            total_amount: self.total_amount,
            total_stake: self.total_stake,
            claimed_amount: self.claimed_amount,
            start_time: self.start_time,
        }
    }
}

/// Whether an address has claimed, and with what stake, in decimal.
#[derive(Clone, Debug, PartialEq, Eq)]
pub struct HasClaimedResponse {
    pub has_claimed: bool,
    pub amount: Option<String>,
}

/// The short form of the configuration.
#[derive(Clone, Debug, PartialEq, Eq)]
pub struct ConfigResponse {
    pub owner: String,
    pub erth_token_contract: String,
    pub erth_token_hash: String,
}

/// Nothing is needed to migrate.
#[derive(Clone, Copy, Debug, PartialEq, Eq)]
pub struct MigrateMsg {}

/// The reply to a query.
#[derive(Clone, Debug, PartialEq, Eq)]
pub enum QueryResponse {
    CurrentRound(CurrentRoundResponse),
    HasClaimed(HasClaimedResponse),
    Config(Config),
}

/// A message that the host is asked to deliver once the request commits.
#[derive(Clone, Debug, PartialEq, Eq)]
pub enum Intent {
    /// Transfer `amount` of the token at `contract_addr` to `recipient`.
    Transfer { recipient: String, amount: u128, code_hash: String, contract_addr: String },
    /// Send `msg` to the contract at `contract_addr`.
    Notify { contract_addr: String, code_hash: String, msg: SendMsg },
}

/// An intent as text.
pub enum IntentView {
    Transfer { recipient: Seq<char>, amount: u128, code_hash: Seq<char>, contract_addr: Seq<char> },
    Notify { contract_addr: Seq<char>, code_hash: Seq<char>, msg: SendMsg },
}

impl View for Intent {
    type V = IntentView;

    open spec fn view(&self) -> IntentView {
        match *self {
            Intent::Transfer { recipient, amount, code_hash, contract_addr } => {
                IntentView::Transfer {
                    recipient: recipient@,
                    amount,
                    code_hash: code_hash@,
                    contract_addr: contract_addr@,
                }
            },
            Intent::Notify { contract_addr, code_hash, msg } => IntentView::Notify {
                contract_addr: contract_addr@,
                code_hash: code_hash@,
                msg,
            },
        }
    }
}

/// A key and a value that describe what a request did.
#[derive(Clone, Debug, PartialEq, Eq)]
pub struct Attribute {
    pub key: String,
    pub value: String,
}

impl View for Attribute {
    type V = (Seq<char>, Seq<char>);

    open spec fn view(&self) -> (Seq<char>, Seq<char>) {
        (self.key@, self.value@)
    }
}

/// What a successful request hands back: intents to deliver, in order, and
/// attributes, in order.
#[derive(Clone, Debug, PartialEq, Eq)]
pub struct Response {
    pub messages: Vec<Intent>,
    pub attributes: Vec<Attribute>,
}

/// A response as text.
pub struct ResponseView {
    pub messages: Seq<IntentView>,
    pub attributes: Seq<(Seq<char>, Seq<char>)>,
}

impl View for Response {
    type V = ResponseView;

    open spec fn view(&self) -> ResponseView {
        ResponseView {
            messages: self.messages@.map_values(|intent: Intent| intent@),
            attributes: self.attributes@.map_values(|attribute: Attribute| attribute@),
        }
    }
}

impl Response {
    /// A response without intents or attributes.
    pub fn new() -> (response: Self)
        ensures
            response@.messages == Seq::<IntentView>::empty(),
            response@.attributes == Seq::<(Seq<char>, Seq<char>)>::empty(),
    {
        let response = Response { messages: Vec::new(), attributes: Vec::new() };
        assert(response@.messages =~= Seq::<IntentView>::empty());
        assert(response@.attributes =~= Seq::<(Seq<char>, Seq<char>)>::empty());
        response
    }

    /// The response with one more intent at the end.
    pub fn add_message(self, intent: Intent) -> (response: Self)
        ensures
            response@.messages == self@.messages.push(intent@),
            response@.attributes == self@.attributes,
    {
        let mut response = self;
        response.messages.push(intent);
        assert(response@.messages =~= self@.messages.push(intent@));
        response
    }

    /// The response with one more attribute at the end.
    pub fn add_attribute(self, key: &str, value: &str) -> (response: Self)
        ensures
            response@.messages == self@.messages,
            response@.attributes == self@.attributes.push((key@, value@)),
    {
        let mut response = self;
        response.attributes.push(
            Attribute { key: String::from_str(key), value: String::from_str(value) },
        );
        assert(response@.attributes =~= self@.attributes.push((key@, value@)));
        response
    }
}

} // verus!
