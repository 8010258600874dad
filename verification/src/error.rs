use vstd::prelude::*;

verus! {

/// Why a request was refused. A refused request changes nothing and sends nothing.
#[derive(Clone, Copy, Debug, PartialEq, Eq, Structural)]
pub enum ContractError {
    /// The caller is not the principal that the operation is reserved for.
    Unauthorized,
    /// No airdrop round has been opened yet.
    NotFound,
    /// The participant already holds a claim record in the active round.
    AlreadyClaimed,
    /// The Merkle proof does not lead to the published root, or one of its
    /// hex strings is malformed.
    InvalidProof,
    /// A zero total stake, or an amount that leaves its range.
    Arithmetic,
    /// The payload of a funding notification could not be decoded.
    Decode,
}

/// The text that goes with each error.
pub open spec fn error_text(error: ContractError) -> Seq<char> {
    match error {
        ContractError::Unauthorized => "Unauthorized"@,
        ContractError::NotFound => "No active airdrop round"@,
        ContractError::AlreadyClaimed => "Already claimed for this round"@,
        ContractError::InvalidProof => "Invalid merkle proof"@,
        ContractError::Arithmetic => "Arithmetic error"@,
        ContractError::Decode => "Invalid receive message"@,
    }
}

impl ContractError {
    /// The error in words, for the caller.
    pub fn message(&self) -> (text: String)
        ensures
            text@ == error_text(*self),
    {
        let text = match self {
            ContractError::Unauthorized => "Unauthorized",
            ContractError::NotFound => "No active airdrop round",
            ContractError::AlreadyClaimed => "Already claimed for this round",
            ContractError::InvalidProof => "Invalid merkle proof",
            ContractError::Arithmetic => "Arithmetic error",
            ContractError::Decode => "Invalid receive message",
        };
        String::from_str(text)
    }
}

} // verus!
