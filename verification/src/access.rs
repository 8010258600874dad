//! Who may do what.

use crate::error::ContractError;
use crate::state::{Config, ConfigView};
use vstd::prelude::*;

verus! {

/// A principal named in the configuration.
#[derive(Clone, Copy, Debug, PartialEq, Eq, Structural)]
pub enum Role {
    /// May replace the configuration.
    Owner,
    /// May open a new round.
    BackendOperator,
    /// The reward token contract, whose receive hook announces funding.
    FundingSource,
}

/// The address that holds `role` under `config`.
pub open spec fn principal(role: Role, config: ConfigView) -> Seq<char> {
    match role {
        Role::Owner => config.owner,
        Role::BackendOperator => config.backend_wallet,
        Role::FundingSource => config.erth_token_contract,
    }
}

/// Whether two strings hold the same text.
pub fn same_text(a: &str, b: &str) -> (same: bool)
    ensures
        same == (a@ == b@),
{
    String::from_str(a) == String::from_str(b)
}

/// Succeeds exactly when `caller` is the address that holds `role`.
pub fn require_role(role: Role, caller: &str, config: &Config) -> (r: Result<(), ContractError>)
    ensures
        match r {
            Ok(_) => caller@ == principal(role, config@),
            Err(e) => e == ContractError::Unauthorized && caller@ != principal(role, config@),
        },
{
    let holder = match role {
        Role::Owner => config.owner.as_str(),
        Role::BackendOperator => config.backend_wallet.as_str(),
        Role::FundingSource => config.erth_token_contract.as_str(),
    };
    if same_text(caller, holder) {
        Ok(())
    } else {
        Err(ContractError::Unauthorized)
    }
}

} // verus!
