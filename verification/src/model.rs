//! The ledger as a mathematical state, and each operation as a function from
//! the state before it to its result and to the state after it.
//!
//! The executable ledger promises, operation by operation, to do what these
//! functions say.

use vstd::prelude::*;
use crate::account_map::ascending_keys;
use crate::nomination_list::swap_removed;
use crate::rewards::{
    add_or_keep, spec_nominator_reward, spec_slash_amount, spec_validator_reward, sub_or_keep,
    sub_or_zero, ERA_DURATION,
};
use crate::types::{
    AccountId, Balance, BlockNumber, Config, CurrencyAction, EraIndex, Error, Event, Nomination,
    Origin, Reward,
};

verus! {

/// Everything the ledger keeps.
#[verifier::ext_equal]
pub struct State {
    /// The values fixed at creation.
    pub config: Config,
    /// The registered validators, each with its own stake.
    pub validators: Map<AccountId, Balance>,
    /// The nominations of each nominator.
    pub nominators: Map<AccountId, Seq<Nomination>>,
    /// What stands behind each validator: its own stake and the nominations.
    pub total_validator_stake: Map<AccountId, Balance>,
    /// Rewards credited and not yet claimed.
    pub pending_rewards: Map<AccountId, Balance>,
    /// The number of registered validators.
    pub validator_count: u32,
    /// Everything staked and nominated.
    pub total_staked: Balance,
    /// The era that is running.
    pub current_era: EraIndex,
    /// The block at which the running era began.
    pub era_start_block: BlockNumber,
}

/// The amount that a map of amounts holds for an account: zero for an account
/// without an entry.
pub open spec fn balance_of(amounts: Map<AccountId, Balance>, who: AccountId) -> Balance {
    if amounts.contains_key(who) {
        amounts[who]
    } else {
        0
    }
}

/// Whether the list names the validator.
pub open spec fn has_nomination(list: Seq<Nomination>, validator: AccountId) -> bool {
    exists|i: int| 0 <= i < list.len() && list[i].validator == validator
}

/// Whether `index` is the first place at which the list names the validator.
pub open spec fn is_first_nomination(
    list: Seq<Nomination>,
    validator: AccountId,
    index: int,
) -> bool {
    &&& 0 <= index < list.len()
    &&& list[index].validator == validator
    &&& forall|j: int| 0 <= j < index ==> list[j].validator != validator
}

/// The first place at which the list names the validator.
pub open spec fn first_nomination(list: Seq<Nomination>, validator: AccountId) -> int {
    choose|i: int| is_first_nomination(list, validator, i)
}

/// A place that is the first to name the validator is the one that
/// `first_nomination` picks.
pub proof fn lemma_first_nomination(list: Seq<Nomination>, validator: AccountId, index: int)
    requires
        is_first_nomination(list, validator, index),
    ensures
        has_nomination(list, validator),
        first_nomination(list, validator) == index,
{
    let chosen = first_nomination(list, validator);
    assert(is_first_nomination(list, validator, chosen));
    if chosen < index {
        assert(list[chosen].validator != validator);
    }
    if index < chosen {
        assert(list[index].validator != validator);
    }
}

/// A list that names the validator somewhere names it somewhere first, and
/// that is the place that `first_nomination` picks.
pub proof fn lemma_has_first_nomination(list: Seq<Nomination>, validator: AccountId)
    requires
        has_nomination(list, validator),
    ensures
        is_first_nomination(list, validator, first_nomination(list, validator)),
{
    let index = choose|i: int| 0 <= i < list.len() && list[i].validator == validator;
    lemma_first_exists(list, validator, index);
}

proof fn lemma_first_exists(list: Seq<Nomination>, validator: AccountId, index: int)
    requires
        0 <= index < list.len(),
        list[index].validator == validator,
    ensures
        exists|i: int| is_first_nomination(list, validator, i),
    decreases index,
{
    if exists|j: int| 0 <= j < index && list[j].validator == validator {
        let j = choose|j: int| 0 <= j < index && list[j].validator == validator;
        lemma_first_exists(list, validator, j);
    } else {
        assert(is_first_nomination(list, validator, index));
    }
}

/// No validator is named twice.
pub open spec fn distinct_validators(list: Seq<Nomination>) -> bool {
    forall|i: int, j: int|
        0 <= i < j < list.len() ==> list[i].validator != list[j].validator
}

/// The pending rewards after one reward was credited. A reward that would
/// take the pending amount beyond what a `Balance` holds is not credited.
pub open spec fn credit(pending: Map<AccountId, Balance>, reward: Reward) -> Map<
    AccountId,
    Balance,
> {
    pending.insert(reward.account, add_or_keep(balance_of(pending, reward.account), reward.amount))
}

/// The pending rewards after the rewards were credited, first to last.
pub open spec fn credit_all(pending: Map<AccountId, Balance>, rewards: Seq<Reward>) -> Map<
    AccountId,
    Balance,
>
    decreases rewards.len(),
{
    if rewards.len() == 0 {
        pending
    } else {
        credit(credit_all(pending, rewards.drop_last()), rewards.last())
    }
}

/// The rewards that one nominator earns through one validator: one for each
/// nomination in its list that names the validator and earns more than
/// nothing, in the order of the list.
pub open spec fn list_rewards(
    nominator: AccountId,
    list: Seq<Nomination>,
    validator: AccountId,
) -> Seq<Reward>
    decreases list.len(),
{
    if list.len() == 0 {
        Seq::empty()
    } else {
        let before = list_rewards(nominator, list.drop_last(), validator);
        let last = list.last();
        if last.validator == validator && spec_nominator_reward(last.amount) != 0 {
            before.push(Reward { account: nominator, amount: spec_nominator_reward(last.amount) })
        } else {
            before
        }
    }
}

/// The rewards that the nominators in `order` earn through one validator.
pub open spec fn nominator_rewards(
    nominators: Map<AccountId, Seq<Nomination>>,
    order: Seq<AccountId>,
    validator: AccountId,
) -> Seq<Reward>
    decreases order.len(),
{
    if order.len() == 0 {
        Seq::empty()
    } else {
        nominator_rewards(nominators, order.drop_last(), validator) + list_rewards(
            order.last(),
            nominators[order.last()],
            validator,
        )
    }
}

/// One call of an operation of the ledger, with its arguments.
pub enum Call {
    RegisterValidator { origin: Origin, stake: Balance, free_balance: Balance },
    RemoveValidator { origin: Origin },
    Nominate { origin: Origin, validator: AccountId, amount: Balance, free_balance: Balance },
    WithdrawNomination { origin: Origin, validator: AccountId },
    ClaimRewards { origin: Origin },
    SlashValidator { origin: Origin, validator: AccountId, slash_percent: u32 },
    OnInitialize { n: BlockNumber },
}

impl State {
    /// The ledger before anything has happened.
    pub open spec fn genesis(config: Config) -> State {
        State {
            config,
            validators: Map::empty(),
            nominators: Map::empty(),
            total_validator_stake: Map::empty(),
            pending_rewards: Map::empty(),
            validator_count: 0,
            total_staked: 0,
            current_era: 0,
            era_start_block: 0,
        }
    }

    /// The nominations of an account: none for an account without an entry.
    pub open spec fn nominations_of(self, who: AccountId) -> Seq<Nomination> {
        if self.nominators.contains_key(who) {
            self.nominators[who]
        } else {
            Seq::empty()
        }
    }

    /// What holds of every ledger that began at `genesis`: no nominator
    /// holds more nominations than the configured maximum, and none names a
    /// validator twice.
    pub open spec fn inv(self) -> bool {
        forall|who: AccountId| #[trigger]
            self.nominators.contains_key(who) ==> {
                &&& self.nominators[who].len() <= self.config.max_nominations
                &&& distinct_validators(self.nominators[who])
            }
    }

    // Registration

    /// Whether a registration succeeds, and with what. The checks come in
    /// this order: the origin, that the account is not registered, the
    /// minimum stake, the free balance.
    pub open spec fn register_validator_result(
        self,
        origin: Origin,
        stake: Balance,
        free_balance: Balance,
    ) -> Result<Event, Error> {
        match origin.signer() {
            None => Err(Error::BadOrigin),
            Some(who) => if self.validators.contains_key(who) {
                Err(Error::AlreadyValidator)
            } else if stake < self.config.min_stake {
                Err(Error::StakeBelowMinimum)
            } else if free_balance < stake {
                Err(Error::InsufficientBalance)
            } else {
                Ok(Event::ValidatorRegistered(who, stake))
            },
        }
    }

    /// The ledger after `who` has registered with `stake`.
    pub open spec fn registered(self, who: AccountId, stake: Balance) -> State {
        State {
            validators: self.validators.insert(who, stake),
            total_validator_stake: self.total_validator_stake.insert(who, stake),
            validator_count: if self.validator_count < u32::MAX {
                (self.validator_count + 1) as u32
            } else {
                self.validator_count
            },
            total_staked: add_or_keep(self.total_staked, stake),
            ..self
        }
    }

    /// The ledger after a call of `register_validator`.
    pub open spec fn after_register_validator(
        self,
        origin: Origin,
        stake: Balance,
        free_balance: Balance,
    ) -> State {
        match self.register_validator_result(origin, stake, free_balance) {
            Ok(_) => self.registered(origin->Signed_0, stake),
            Err(_) => self,
        }
    }

    // Removal

    /// Whether a removal succeeds, and with what. An account with no stake
    /// of its own is not a validator.
    pub open spec fn remove_validator_result(self, origin: Origin) -> Result<Event, Error> {
        match origin.signer() {
            None => Err(Error::BadOrigin),
            Some(who) => if balance_of(self.validators, who) == 0 {
                Err(Error::NotValidator)
            } else {
                Ok(Event::ValidatorRemoved(who, balance_of(self.validators, who)))
            },
        }
    }

    /// The ledger after the validator `who` has left. Nominations that name
    /// it stay where they are.
    pub open spec fn removed(self, who: AccountId) -> State {
        State {
            validators: self.validators.remove(who),
            total_validator_stake: self.total_validator_stake.remove(who),
            validator_count: if self.validator_count > 0 {
                (self.validator_count - 1) as u32
            } else {
                0
            },
            total_staked: sub_or_keep(self.total_staked, balance_of(self.validators, who)),
            ..self
        }
    }

    /// The ledger after a call of `remove_validator`.
    pub open spec fn after_remove_validator(self, origin: Origin) -> State {
        match self.remove_validator_result(origin) {
            Ok(_) => self.removed(origin->Signed_0),
            Err(_) => self,
        }
    }

    // Nomination

    /// Whether a nomination succeeds, and with what. The checks come in this
    /// order: the origin, that the validator is registered, the minimum
    /// nomination, the free balance, that the nominator has not named the
    /// validator yet, the number of nominations it holds.
    pub open spec fn nominate_result(
        self,
        origin: Origin,
        validator: AccountId,
        amount: Balance,
        free_balance: Balance,
    ) -> Result<Event, Error> {
        match origin.signer() {
            None => Err(Error::BadOrigin),
            Some(who) => if !self.validators.contains_key(validator) {
                Err(Error::NotValidator)
            } else if amount < self.config.min_nomination {
                Err(Error::NominationBelowMinimum)
            } else if free_balance < amount {
                Err(Error::InsufficientBalance)
            } else if has_nomination(self.nominations_of(who), validator) {
                Err(Error::AlreadyNominated)
            } else if self.nominations_of(who).len() >= self.config.max_nominations {
                Err(Error::MaxNominationsReached)
            } else {
                Ok(Event::Nomination(who, validator, amount))
            },
        }
    }

    /// The ledger after `who` has placed `amount` behind `validator`.
    pub open spec fn nominated(self, who: AccountId, validator: AccountId, amount: Balance) -> State {
        State {
            nominators: self.nominators.insert(
                who,
                self.nominations_of(who).push(Nomination { validator, amount }),
            ),
            total_validator_stake: self.total_validator_stake.insert(
                validator,
                add_or_keep(balance_of(self.total_validator_stake, validator), amount),
            ),
            total_staked: add_or_keep(self.total_staked, amount),
            ..self
        }
    }

    /// The ledger after a call of `nominate`.
    pub open spec fn after_nominate(
        self,
        origin: Origin,
        validator: AccountId,
        amount: Balance,
        free_balance: Balance,
    ) -> State {
        match self.nominate_result(origin, validator, amount, free_balance) {
            Ok(_) => self.nominated(origin->Signed_0, validator, amount),
            Err(_) => self,
        }
    }

    // Withdrawal

    /// Whether a withdrawal succeeds, and with what.
    pub open spec fn withdraw_nomination_result(
        self,
        origin: Origin,
        validator: AccountId,
    ) -> Result<Event, Error> {
        match origin.signer() {
            None => Err(Error::BadOrigin),
            Some(who) => {
                let list = self.nominations_of(who);
                if !has_nomination(list, validator) {
                    Err(Error::NominationNotFound)
                } else {
                    Ok(
                        Event::NominationWithdrawn(
                            who,
                            validator,
                            list[first_nomination(list, validator)].amount,
                        ),
                    )
                }
            },
        }
    }

    /// The ledger after `who` has taken back what it placed behind
    /// `validator`: the nomination leaves the list and the last nomination
    /// of the list takes its place.
    pub open spec fn withdrawn(self, who: AccountId, validator: AccountId) -> State {
        let list = self.nominations_of(who);
        let index = first_nomination(list, validator);
        let amount = list[index].amount;
        State {
            nominators: self.nominators.insert(who, swap_removed(list, index)),
            total_validator_stake: self.total_validator_stake.insert(
                validator,
                sub_or_keep(balance_of(self.total_validator_stake, validator), amount),
            ),
            total_staked: sub_or_keep(self.total_staked, amount),
            ..self
        }
    }

    /// The ledger after a call of `withdraw_nomination`.
    pub open spec fn after_withdraw_nomination(self, origin: Origin, validator: AccountId) -> State {
        match self.withdraw_nomination_result(origin, validator) {
            Ok(_) => self.withdrawn(origin->Signed_0, validator),
            Err(_) => self,
        }
    }

    // Claim

    /// Whether a claim succeeds, and with what.
    pub open spec fn claim_rewards_result(self, origin: Origin) -> Result<Event, Error> {
        match origin.signer() {
            None => Err(Error::BadOrigin),
            Some(who) => if balance_of(self.pending_rewards, who) == 0 {
                Err(Error::NoRewards)
            } else {
                Ok(Event::RewardsClaimed(who, balance_of(self.pending_rewards, who)))
            },
        }
    }

    /// The ledger after `who` has claimed what was pending for it.
    pub open spec fn claimed(self, who: AccountId) -> State {
        State { pending_rewards: self.pending_rewards.remove(who), ..self }
    }

    /// The ledger after a call of `claim_rewards`.
    pub open spec fn after_claim_rewards(self, origin: Origin) -> State {
        match self.claim_rewards_result(origin) {
            Ok(_) => self.claimed(origin->Signed_0),
            Err(_) => self,
        }
    }

    // Slash

    /// Whether a slash of an amount succeeds, and with what movement of
    /// currency.
    pub open spec fn do_slash_result(self, validator: AccountId, slash_amount: Balance) -> Result<
        CurrencyAction,
        Error,
    > {
        if slash_amount == 0 {
            Err(Error::ZeroSlashAmount)
        } else if balance_of(self.validators, validator) < slash_amount {
            Err(Error::InsufficientStake)
        } else {
            Ok(CurrencyAction::SlashReserved(validator, slash_amount))
        }
    }

    /// The ledger after `slash_amount` was taken from the validator's own
    /// stake. The nominations behind it stay as they are.
    pub open spec fn slashed(self, validator: AccountId, slash_amount: Balance) -> State {
        State {
            validators: self.validators.insert(
                validator,
                (balance_of(self.validators, validator) - slash_amount) as Balance,
            ),
            total_validator_stake: self.total_validator_stake.insert(
                validator,
                sub_or_zero(balance_of(self.total_validator_stake, validator), slash_amount),
            ),
            total_staked: sub_or_zero(self.total_staked, slash_amount),
            ..self
        }
    }

    /// The ledger after a call of `do_slash`.
    pub open spec fn after_do_slash(self, validator: AccountId, slash_amount: Balance) -> State {
        match self.do_slash_result(validator, slash_amount) {
            Ok(_) => self.slashed(validator, slash_amount),
            Err(_) => self,
        }
    }

    /// Whether a slash by a percentage succeeds, and with what. The checks
    /// come in this order: that the origin is the governance authority, that
    /// the percentage is between 1 and 100, that the validator has a stake,
    /// that the slash comes to more than nothing and to no more than the
    /// stake.
    pub open spec fn slash_validator_result(
        self,
        origin: Origin,
        validator: AccountId,
        slash_percent: u32,
    ) -> Result<Event, Error> {
        let stake = balance_of(self.validators, validator);
        let amount = spec_slash_amount(stake, slash_percent);
        if origin != Origin::Root {
            Err(Error::BadOrigin)
        } else if !(0 < slash_percent <= 100) {
            Err(Error::InvalidSlashPercentage)
        } else if stake == 0 {
            Err(Error::NotValidator)
        } else if amount == 0 {
            Err(Error::ZeroSlashAmount)
        } else {
            match self.do_slash_result(validator, amount) {
                Ok(_) => Ok(Event::ValidatorSlashed(validator, amount, slash_percent)),
                Err(e) => Err(e),
            }
        }
    }

    /// The ledger after a call of `slash_validator`.
    pub open spec fn after_slash_validator(
        self,
        origin: Origin,
        validator: AccountId,
        slash_percent: u32,
    ) -> State {
        match self.slash_validator_result(origin, validator, slash_percent) {
            Ok(_) => self.slashed(
                validator,
                spec_slash_amount(balance_of(self.validators, validator), slash_percent),
            ),
            Err(_) => self,
        }
    }

    // Rewards

    /// Whether the end of an era credits anything: something is staked and
    /// the reward rate is not zero.
    pub open spec fn pays_rewards(self) -> bool {
        self.total_staked != 0 && self.config.reward_rate != 0
    }

    /// The rewards that one validator brings at the end of an era: its own,
    /// where that is more than nothing, and then those of its nominators, in
    /// ascending order of nominator. A validator with nothing behind it
    /// brings none.
    pub open spec fn validator_rewards(self, validator: AccountId) -> Seq<Reward> {
        if balance_of(self.total_validator_stake, validator) == 0 {
            Seq::empty()
        } else {
            let own = spec_validator_reward(balance_of(self.validators, validator));
            let shared = nominator_rewards(
                self.nominators,
                ascending_keys(self.nominators.dom()),
                validator,
            );
            if own != 0 {
                seq![Reward { account: validator, amount: own }] + shared
            } else {
                shared
            }
        }
    }

    /// The rewards that the validators in `order` bring.
    pub open spec fn rewards_of(self, order: Seq<AccountId>) -> Seq<Reward>
        decreases order.len(),
    {
        if order.len() == 0 {
            Seq::empty()
        } else {
            self.rewards_of(order.drop_last()) + self.validator_rewards(order.last())
        }
    }

    /// All rewards of one era, validator by validator in ascending order.
    pub open spec fn era_rewards(self) -> Seq<Reward> {
        if self.pays_rewards() {
            self.rewards_of(ascending_keys(self.validators.dom()))
        } else {
            Seq::empty()
        }
    }

    /// The rewards of an era depend on the stakes, on the nominations and on
    /// the reward rate, and on nothing else: not on the era clock, and not
    /// on what is pending.
    pub proof fn lemma_era_rewards_depend_on_stakes(self, other: State)
        requires
            self.validators == other.validators,
            self.nominators == other.nominators,
            self.total_validator_stake == other.total_validator_stake,
            self.total_staked == other.total_staked,
            self.config == other.config,
        ensures
            self.era_rewards() == other.era_rewards(),
    {
        self.lemma_rewards_of_depend_on_stakes(other, ascending_keys(self.validators.dom()));
    }

    proof fn lemma_rewards_of_depend_on_stakes(self, other: State, order: Seq<AccountId>)
        requires
            self.validators == other.validators,
            self.nominators == other.nominators,
            self.total_validator_stake == other.total_validator_stake,
        ensures
            self.rewards_of(order) == other.rewards_of(order),
        decreases order.len(),
    {
        if order.len() > 0 {
            self.lemma_rewards_of_depend_on_stakes(other, order.drop_last());
        }
    }

    /// The event that closes `era`: the reward that everything staked would
    /// earn at the validators' rate. Every era is closed by one, also an era
    /// in which nothing was credited; while nothing is staked it carries a
    /// reward of zero.
    pub open spec fn distribution_event(self, era: EraIndex) -> Event {
        Event::RewardsDistributed(era, spec_validator_reward(self.total_staked))
    }

    /// The ledger after the rewards of one era were credited.
    pub open spec fn after_distribute_rewards(self) -> State {
        State { pending_rewards: credit_all(self.pending_rewards, self.era_rewards()), ..self }
    }

    // Era clock

    /// Whether the running era is over at block `n`.
    pub open spec fn era_ends_at(self, n: BlockNumber) -> bool {
        n >= self.era_start_block + ERA_DURATION
    }

    /// The ledger with the next era begun at block `n`.
    pub open spec fn next_era(self, n: BlockNumber) -> State {
        State {
            current_era: if self.current_era < u32::MAX {
                (self.current_era + 1) as EraIndex
            } else {
                self.current_era
            },
            era_start_block: n,
            ..self
        }
    }

    /// The ledger after block `n` was begun: where the running era is over,
    /// the next one begins at `n` and the rewards of the one that ended are
    /// credited.
    pub open spec fn after_on_initialize(self, n: BlockNumber) -> State {
        if self.era_ends_at(n) {
            self.next_era(n).after_distribute_rewards()
        } else {
            self
        }
    }

    // Histories

    /// The ledger after one call.
    pub open spec fn after(self, call: Call) -> State {
        match call {
            Call::RegisterValidator { origin, stake, free_balance } => self.after_register_validator(
                origin,
                stake,
                free_balance,
            ),
            Call::RemoveValidator { origin } => self.after_remove_validator(origin),
            Call::Nominate { origin, validator, amount, free_balance } => self.after_nominate(
                origin,
                validator,
                amount,
                free_balance,
            ),
            Call::WithdrawNomination { origin, validator } => self.after_withdraw_nomination(
                origin,
                validator,
            ),
            Call::ClaimRewards { origin } => self.after_claim_rewards(origin),
            Call::SlashValidator { origin, validator, slash_percent } => self.after_slash_validator(
                origin,
                validator,
                slash_percent,
            ),
            Call::OnInitialize { n } => self.after_on_initialize(n),
        }
    }

    /// The ledger after the calls, first to last.
    pub open spec fn after_all(self, calls: Seq<Call>) -> State
        decreases calls.len(),
    {
        if calls.len() == 0 {
            self
        } else {
            self.after_all(calls.drop_last()).after(calls.last())
        }
    }
}

} // verus!
