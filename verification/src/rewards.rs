//! Integer arithmetic of the ledger: the reward of an era, the amount of a
//! slash, and sums that keep their old value when the new one does not fit.

use vstd::prelude::*;
use crate::types::Balance;

verus! {

/// Blocks in a year, at one block every six seconds.
pub const BLOCKS_PER_YEAR: u32 = 5_256_000;

/// A validator earns 15 in 100 of its own stake in a year.
pub const VALIDATOR_INFLATION_RATE_NUMERATOR: u32 = 15;

pub const VALIDATOR_INFLATION_RATE_DENOMINATOR: u32 = 100;

/// A nominator earns 10 in 100 of a nomination in a year.
pub const NOMINATOR_INFLATION_RATE_NUMERATOR: u32 = 10;

pub const NOMINATOR_INFLATION_RATE_DENOMINATOR: u32 = 100;

/// The length of an era in blocks: one day, at one block every six seconds.
pub const ERA_DURATION: u32 = 14_400;

/// The sum, or `a` where the sum does not fit.
pub open spec fn add_or_keep(a: Balance, b: Balance) -> Balance {
    if a + b <= Balance::MAX {
        (a + b) as Balance
    } else {
        a
    }
}

/// The difference, or `a` where `b` is the larger.
pub open spec fn sub_or_keep(a: Balance, b: Balance) -> Balance {
    if a >= b {
        (a - b) as Balance
    } else {
        a
    }
}

/// The difference, or zero where `b` is the larger.
pub open spec fn sub_or_zero(a: Balance, b: Balance) -> Balance {
    if a >= b {
        (a - b) as Balance
    } else {
        0
    }
}

/// What a stake earns in one era at `numerator` in 100 a year: the reward of
/// one block, rounded down, times the blocks of an era. A stake so large
/// that `stake * numerator` does not fit earns nothing.
pub open spec fn era_reward(stake: Balance, numerator: u32) -> Balance {
    if stake * numerator > Balance::MAX {
        0
    } else {
        ((stake * numerator) / (BLOCKS_PER_YEAR * 100) * ERA_DURATION) as Balance
    }
}

/// What a validator earns on its own stake in one era.
pub open spec fn spec_validator_reward(stake: Balance) -> Balance {
    era_reward(stake, VALIDATOR_INFLATION_RATE_NUMERATOR)
}

/// What a nominator earns on one nomination in one era.
pub open spec fn spec_nominator_reward(amount: Balance) -> Balance {
    era_reward(amount, NOMINATOR_INFLATION_RATE_NUMERATOR)
}

/// What a slash of `percent` in 100 takes from a stake, rounded down. A
/// stake so large that `stake * percent` does not fit loses nothing.
pub open spec fn spec_slash_amount(stake: Balance, percent: u32) -> Balance {
    if stake * percent > Balance::MAX {
        0
    } else {
        (stake * percent / 100) as Balance
    }
}

/// The reward of one era is never more than the product it is taken from.
pub proof fn lemma_era_reward_fits(stake: Balance, numerator: u32)
    requires
        stake * numerator <= Balance::MAX,
    ensures
        (stake * numerator) / (BLOCKS_PER_YEAR * 100) * ERA_DURATION <= stake * numerator,
{
    let product = stake * numerator;
    let per_block = product / 525_600_000;
    assert(per_block * 525_600_000 <= product) by (nonlinear_arith)
        requires
            per_block == product / 525_600_000,
            product >= 0,
    ;
    assert(per_block * 14_400 <= per_block * 525_600_000) by (nonlinear_arith)
        requires
            per_block >= 0,
    ;
}

/// See [`add_or_keep`].
pub fn checked_add_or_keep(a: Balance, b: Balance) -> (sum: Balance)
    ensures
        sum == add_or_keep(a, b),
{
    match a.checked_add(b) {
        Some(sum) => sum,
        None => a,
    }
}

/// See [`sub_or_keep`].
pub fn checked_sub_or_keep(a: Balance, b: Balance) -> (difference: Balance)
    ensures
        difference == sub_or_keep(a, b),
{
    match a.checked_sub(b) {
        Some(difference) => difference,
        None => a,
    }
}

/// See [`sub_or_zero`].
pub fn checked_sub_or_zero(a: Balance, b: Balance) -> (difference: Balance)
    ensures
        difference == sub_or_zero(a, b),
{
    match a.checked_sub(b) {
        Some(difference) => difference,
        None => 0,
    }
}

/// What a stake earns in one era at `numerator` in 100 a year.
fn reward(stake: Balance, numerator: u32) -> (amount: Balance)
    ensures
        amount == era_reward(stake, numerator),
{
    let year: u32 = BLOCKS_PER_YEAR * 100;
    let per_block: Balance = match stake.checked_mul(numerator as Balance) {
        Some(product) => match product.checked_div(year as Balance) {
            Some(quotient) => quotient,
            None => 0,
        },
        None => 0,
    };
    proof {
        if stake * numerator <= Balance::MAX {
            lemma_era_reward_fits(stake, numerator);
        }
    }
    match per_block.checked_mul(ERA_DURATION as Balance) {
        Some(amount) => amount,
        None => 0,
    }
}

/// What a validator earns on its own stake in one era.
#[verifier::when_used_as_spec(spec_validator_reward)]
pub fn validator_reward(stake: Balance) -> (amount: Balance)
    ensures
        amount == spec_validator_reward(stake),
{
    reward(stake, VALIDATOR_INFLATION_RATE_NUMERATOR)
}

/// What a nominator earns on one nomination in one era.
#[verifier::when_used_as_spec(spec_nominator_reward)]
pub fn nominator_reward(amount: Balance) -> (reward: Balance)
    ensures
        reward == spec_nominator_reward(amount),
{
    reward(amount, NOMINATOR_INFLATION_RATE_NUMERATOR)
}

/// What a slash of `percent` in 100 takes from a stake.
#[verifier::when_used_as_spec(spec_slash_amount)]
pub fn slash_amount(stake: Balance, percent: u32) -> (amount: Balance)
    ensures
        amount == spec_slash_amount(stake, percent),
{
    match stake.checked_mul(percent as Balance) {
        Some(product) => match product.checked_div(100) {
            Some(amount) => amount,
            None => 0,
        },
        None => 0,
    }
}

} // verus!
