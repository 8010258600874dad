//! The share of a round's pool that a stake earns.

use crate::error::ContractError;
use secret_cosmwasm_std::{CheckedMultiplyRatioError, Uint128};
use vstd::prelude::*;

verus! {

/// The payout of `stake` out of `total_stake` from a pool of `total_amount`:
/// `total_amount * stake / total_stake`, rounded down. The product is taken
/// in full before the division.
pub open spec fn payout(total_amount: int, stake: int, total_stake: int) -> int {
    (total_amount * stake) / total_stake
}

/// The payout exists: the total stake is not zero and the payout fits in
/// 128 bits.
pub open spec fn payout_defined(total_amount: int, stake: int, total_stake: int) -> bool {
    total_stake != 0 && payout(total_amount, stake, total_stake) <= u128::MAX
}

/// The error of `Uint128::checked_multiply_ratio`, carried through unread.
#[verifier::external_type_specification]
#[verifier::external_body]
pub struct ExCheckedMultiplyRatioError(CheckedMultiplyRatioError);

/// `Uint128::checked_multiply_ratio`: `amount * numerator / denominator`,
/// rounded down, with the product taken in 256 bits. It fails exactly when
/// the denominator is zero or the quotient does not fit in 128 bits.
/// Trusted, not proved.
#[verifier::external_body]
fn checked_multiply_ratio(
    amount: u128,
    numerator: u128,
    denominator: u128,
) -> (r: Result<u128, CheckedMultiplyRatioError>)
    ensures
        r is Ok <==> payout_defined(amount as int, numerator as int, denominator as int),
        r matches Ok(quotient) ==> quotient == payout(
            amount as int,
            numerator as int,
            denominator as int,
        ),
{
    match Uint128::new(amount).checked_multiply_ratio(numerator, denominator) {
        Ok(quotient) => Ok(quotient.u128()),
        Err(e) => Err(e),
    }
}

/// Computes the payout of `stake` out of `total_stake` from a pool of
/// `total_amount`. Fails when `total_stake` is zero or the payout does not
/// fit in 128 bits.
pub fn compute_claim(
    stake: u128,
    total_stake: u128,
    total_amount: u128,
) -> (r: Result<u128, ContractError>)
    ensures
        match r {
            Ok(amount) => payout_defined(total_amount as int, stake as int, total_stake as int)
                && amount == payout(total_amount as int, stake as int, total_stake as int),
            Err(e) => e == ContractError::Arithmetic && !payout_defined(
                total_amount as int,
                stake as int,
                total_stake as int,
            ),
        },
{
    match checked_multiply_ratio(total_amount, stake, total_stake) {
        Ok(amount) => Ok(amount),
        Err(_) => Err(ContractError::Arithmetic),
    }
}

/// A payout is never negative, and a stake within the total earns no more
/// than the pool.
pub proof fn lemma_payout_bounds(total_amount: int, stake: int, total_stake: int)
    requires
        0 <= total_amount,
        0 <= stake,
        0 < total_stake,
    ensures
        0 <= payout(total_amount, stake, total_stake),
        stake <= total_stake ==> payout(total_amount, stake, total_stake) <= total_amount,
        stake == total_stake ==> payout(total_amount, stake, total_stake) == total_amount,
{
    assert(0 <= (total_amount * stake) / total_stake) by (nonlinear_arith)
        requires
            0 <= total_amount,
            0 <= stake,
            0 < total_stake,
    ;
    if stake <= total_stake {
        assert((total_amount * stake) / total_stake <= total_amount) by (nonlinear_arith)
            requires
                0 <= total_amount,
                0 <= stake <= total_stake,
                0 < total_stake,
        ;
    }
    if stake == total_stake {
        assert((total_amount * total_stake) / total_stake == total_amount) by (nonlinear_arith)
            requires
                0 < total_stake,
        ;
    }
}

/// Rounding down never pays out more than rounding once would: two payouts
/// together stay within the payout of the two stakes together.
pub proof fn lemma_payout_superadditive(total_amount: int, a: int, b: int, total_stake: int)
    requires
        0 <= total_amount,
        0 <= a,
        0 <= b,
        0 < total_stake,
    ensures
        payout(total_amount, a, total_stake) + payout(total_amount, b, total_stake) <= payout(
            total_amount,
            a + b,
            total_stake,
        ),
{
    let x = total_amount * a;
    let y = total_amount * b;
    assert(total_amount * (a + b) == x + y) by (nonlinear_arith)
        requires
            x == total_amount * a,
            y == total_amount * b,
    ;
    assert(0 <= x && 0 <= y) by (nonlinear_arith)
        requires
            x == total_amount * a,
            y == total_amount * b,
            0 <= total_amount,
            0 <= a,
            0 <= b,
    ;
    assert(x / total_stake + y / total_stake <= (x + y) / total_stake) by (nonlinear_arith)
        requires
            0 <= x,
            0 <= y,
            0 < total_stake,
    ;
}

} // verus!
