//! The plain values that every part of the ledger speaks of.

use vstd::prelude::*;

verus! {

/// Identity of an account.
pub type AccountId = u64;

/// An amount of currency.
pub type Balance = u128;

/// A block height.
pub type BlockNumber = u64;

/// The number of an era.
pub type EraIndex = u32;

/// Who asks for an operation.
#[derive(Clone, Copy, Debug, PartialEq, Eq, Structural)]
pub enum Origin {
    /// The governance authority.
    Root,
    /// An account that has authenticated itself.
    Signed(AccountId),
    /// Nobody.
    Nobody,
}

impl Origin {
    /// The origin of a call that `who` has signed.
    pub fn signed(who: AccountId) -> (origin: Origin)
        ensures
            origin == Origin::Signed(who),
    {
        Origin::Signed(who)
    }

    /// The origin of a call made by the governance authority.
    pub fn root() -> (origin: Origin)
        ensures
            origin == Origin::Root,
    {
        Origin::Root
    }

    /// The origin of a call that nobody stands behind.
    pub fn nobody() -> (origin: Origin)
        ensures
            origin == Origin::Nobody,
    {
        Origin::Nobody
    }

    /// The account behind a signed origin.
    pub open spec fn signer(self) -> Option<AccountId> {
        match self {
            Origin::Signed(who) => Some(who),
            _ => None,
        }
    }

    /// The account that signed, or `BadOrigin` for any other origin.
    pub fn ensure_signed(self) -> (res: Result<AccountId, Error>)
        ensures
            res == match self.signer() {
                Some(who) => Ok::<AccountId, Error>(who),
                None => Err::<AccountId, Error>(Error::BadOrigin),
            },
    {
        match self {
            Origin::Signed(who) => Ok(who),
            _ => Err(Error::BadOrigin),
        }
    }

    /// `Ok` for the governance authority, `BadOrigin` for any other origin.
    pub fn ensure_root(self) -> (res: Result<(), Error>)
        ensures
            res == if self == Origin::Root {
                Ok::<(), Error>(())
            } else {
                Err::<(), Error>(Error::BadOrigin)
            },
    {
        match self {
            Origin::Root => Ok(()),
            _ => Err(Error::BadOrigin),
        }
    }
}

/// Stake that a nominator has placed behind one validator.
#[derive(Clone, Copy, Debug, PartialEq, Eq, Structural)]
pub struct Nomination {
    pub validator: AccountId,
    pub amount: Balance,
}

/// The values that are fixed when a ledger is created.
#[derive(Clone, Copy, Debug, PartialEq, Eq, Structural)]
pub struct Config {
    /// The least stake that makes an account a validator.
    pub min_stake: Balance,
    /// The least amount of one nomination.
    pub min_nomination: Balance,
    /// The most nominations that one nominator may hold at a time.
    pub max_nominations: u32,
    /// Rewards are paid only while this is not zero.
    pub reward_rate: u32,
}

/// What an operation that succeeded has done.
#[derive(Clone, Copy, Debug, PartialEq, Eq, Structural)]
pub enum Event {
    /// A validator has registered: validator, stake.
    ValidatorRegistered(AccountId, Balance),
    /// A validator has left and has its stake back: validator, stake.
    ValidatorRemoved(AccountId, Balance),
    /// A nomination was made: nominator, validator, amount.
    Nomination(AccountId, AccountId, Balance),
    /// A nomination was withdrawn: nominator, validator, amount.
    NominationWithdrawn(AccountId, AccountId, Balance),
    /// Pending rewards were claimed: account, amount.
    RewardsClaimed(AccountId, Balance),
    /// The rewards of an era were distributed: era, total reward.
    RewardsDistributed(EraIndex, Balance),
    /// A validator was slashed: validator, amount, percentage.
    ValidatorSlashed(AccountId, Balance, u32),
}

/// Why an operation was refused. A refused operation changes nothing.
#[derive(Clone, Copy, Debug, PartialEq, Eq, Structural)]
pub enum Error {
    /// The account is a validator already.
    AlreadyValidator,
    /// The account is not a validator.
    NotValidator,
    /// The stake is below the minimum.
    StakeBelowMinimum,
    /// The nomination is below the minimum.
    NominationBelowMinimum,
    /// The free balance does not cover the amount.
    InsufficientBalance,
    /// The nominator holds as many nominations as are allowed.
    MaxNominationsReached,
    /// The nominator has nominated this validator already.
    AlreadyNominated,
    /// The nominator has no nomination for this validator.
    NominationNotFound,
    /// Nothing is pending for the account.
    NoRewards,
    /// The percentage is not between 1 and 100.
    InvalidSlashPercentage,
    /// The slash comes to nothing.
    ZeroSlashAmount,
    /// The slash is more than the validator has staked.
    InsufficientStake,
    /// The caller may not ask for this operation.
    BadOrigin,
}

/// What the keeper of the currency is to do after an operation succeeded.
#[derive(Clone, Copy, Debug, PartialEq, Eq, Structural)]
pub enum CurrencyAction {
    /// Move the amount from the account's free balance to its reserve.
    Reserve(AccountId, Balance),
    /// Move the amount from the account's reserve back to its free balance.
    Unreserve(AccountId, Balance),
    /// Destroy the amount in the account's reserve.
    SlashReserved(AccountId, Balance),
    /// Create the amount in the account's free balance.
    Deposit(AccountId, Balance),
}

impl Event {
    /// The currency movement that belongs to an event.
    pub open spec fn spec_currency_action(self) -> Option<CurrencyAction> {
        match self {
            Event::ValidatorRegistered(who, stake) => Some(CurrencyAction::Reserve(who, stake)),
            Event::ValidatorRemoved(who, stake) => Some(CurrencyAction::Unreserve(who, stake)),
            Event::Nomination(who, _, amount) => Some(CurrencyAction::Reserve(who, amount)),
            Event::NominationWithdrawn(who, _, amount) => Some(
                CurrencyAction::Unreserve(who, amount),
            ),
            Event::RewardsClaimed(who, amount) => Some(CurrencyAction::Deposit(who, amount)),
            Event::RewardsDistributed(_, _) => None,
            Event::ValidatorSlashed(validator, amount, _) => Some(
                CurrencyAction::SlashReserved(validator, amount),
            ),
        }
    }

    /// The currency movement that belongs to an event: a stake or a
    /// nomination is reserved when it is made and unreserved when it is taken
    /// back, a slash destroys reserved currency, and a claim creates the
    /// claimed amount. The rewards of an era are listed one by one when they
    /// are distributed, so the event that sums them up moves nothing.
    #[verifier::when_used_as_spec(spec_currency_action)]
    pub fn currency_action(self) -> (action: Option<CurrencyAction>)
        ensures
            action == self.spec_currency_action(),
    {
        match self {
            Event::ValidatorRegistered(who, stake) => Some(CurrencyAction::Reserve(who, stake)),
            Event::ValidatorRemoved(who, stake) => Some(CurrencyAction::Unreserve(who, stake)),
            Event::Nomination(who, _, amount) => Some(CurrencyAction::Reserve(who, amount)),
            Event::NominationWithdrawn(who, _, amount) => Some(
                CurrencyAction::Unreserve(who, amount),
            ),
            Event::RewardsClaimed(who, amount) => Some(CurrencyAction::Deposit(who, amount)),
            Event::RewardsDistributed(_, _) => None,
            Event::ValidatorSlashed(validator, amount, _) => Some(
                CurrencyAction::SlashReserved(validator, amount),
            ),
        }
    }
}

/// A reward credited to an account at the end of an era.
#[derive(Clone, Copy, Debug, PartialEq, Eq, Structural)]
pub struct Reward {
    pub account: AccountId,
    pub amount: Balance,
}

/// What the end of an era has brought.
#[derive(Clone, Debug, PartialEq, Eq)]
pub struct Distribution {
    /// The rewards that were credited, in the order in which they were
    /// credited. The keeper of the currency creates each of them in the
    /// account's free balance.
    pub rewards: Vec<Reward>,
    /// The event that closes the era, with the reward that everything staked
    /// would earn at the validators' rate.
    pub event: Event,
}

/// What the beginning of a block has brought.
#[derive(Clone, Debug, PartialEq, Eq)]
pub struct BlockOutcome {
    /// The weight of the bookkeeping done for the block.
    pub weight: u64,
    /// The rewards that were credited: see [`Distribution`].
    pub rewards: Vec<Reward>,
    /// The event that closes the era, where the block has ended one.
    pub event: Option<Event>,
}

} // verus!
