//! The executable ledger.
//!
//! A [`Pallet`] holds the whole state. Each operation checks before it
//! changes anything, so a refused operation leaves the ledger as it was. The
//! ledger never touches the currency: an operation that depends on a balance
//! takes the balance as an argument, and the event it returns says what the
//! keeper of the currency has to do.

use vstd::prelude::*;
use crate::account_map::AccountMap;
use crate::model::{
    balance_of, credit_all, distinct_validators, is_first_nomination, lemma_first_nomination,
    list_rewards, nominator_rewards, State,
};
use crate::nomination_list::{
    find_nomination, lemma_push_distinct, lemma_swap_removed_distinct, list_get, list_len,
    list_new, list_swap_remove, list_to_vec, list_try_push, nomination_entries, NominationList,
};
use crate::rewards::{
    checked_add_or_keep, checked_sub_or_keep, checked_sub_or_zero, nominator_reward, slash_amount,
    spec_slash_amount, validator_reward, ERA_DURATION,
};
use crate::types::{
    AccountId, Balance, BlockNumber, BlockOutcome, Config, CurrencyAction, Distribution, EraIndex,
    Error, Event, Nomination, Origin, Reward,
};

verus! {

/// The ledger of a validator set: stakes, nominations, pending rewards and
/// the era clock.
#[derive(Clone, Debug, PartialEq, Eq)]
pub struct Pallet {
    config: Config,
    validators: AccountMap<Balance>,
    nominators: AccountMap<NominationList>,
    total_validator_stake: AccountMap<Balance>,
    pending_rewards: AccountMap<Balance>,
    validator_count: u32,
    total_staked: Balance,
    current_era: EraIndex,
    era_start_block: BlockNumber,
}

/// What the lists of a map of nominators hold.
pub open spec fn lists_of(nominators: Map<AccountId, NominationList>) -> Map<
    AccountId,
    Seq<Nomination>,
> {
    Map::new(
        |who: AccountId| nominators.contains_key(who),
        |who: AccountId| nomination_entries(nominators[who]),
    )
}

/// The amount that the map holds for the account, zero where it holds none.
fn amount_of(amounts: &AccountMap<Balance>, who: AccountId) -> (amount: Balance)
    requires
        amounts.wf(),
    ensures
        amount == balance_of(amounts@, who),
{
    match amounts.get(who) {
        Some(amount) => *amount,
        None => 0,
    }
}

/// Appends the rewards that one nominator earns through one validator.
fn push_list_rewards(
    nominator: AccountId,
    list: &NominationList,
    validator: AccountId,
    out: &mut Vec<Reward>,
)
    ensures
        final(out)@ == old(out)@ + list_rewards(nominator, nomination_entries(*list), validator),
{
    let ghost start = out@;
    let ghost entries = nomination_entries(*list);
    let n = list_len(list);
    let mut index: usize = 0;
    proof {
        assert(start + list_rewards(nominator, entries.take(0), validator) =~= start);
    }
    while index < n
        invariant
            entries == nomination_entries(*list),
            n == entries.len(),
            index <= n,
            out@ == start + list_rewards(nominator, entries.take(index as int), validator),
        decreases n - index,
    {
        let nomination = list_get(list, index);
        proof {
            let next = entries.take(index + 1);
            assert(next.drop_last() =~= entries.take(index as int));
            assert(next.last() == nomination);
        }
        if nomination.validator == validator {
            let reward = nominator_reward(nomination.amount);
            if reward != 0 {
                out.push(Reward { account: nominator, amount: reward });
                proof {
                    assert(out@ =~= start + list_rewards(
                        nominator,
                        entries.take(index + 1),
                        validator,
                    ));
                }
            }
        }
        index += 1;
    }
    proof {
        assert(entries.take(n as int) =~= entries);
    }
}

/// Appends the rewards that all nominators earn through one validator,
/// nominator by nominator in the order of the map.
fn push_nominator_rewards(
    nominators: &AccountMap<NominationList>,
    validator: AccountId,
    out: &mut Vec<Reward>,
)
    requires
        nominators.wf(),
    ensures
        final(out)@ == old(out)@ + nominator_rewards(
            lists_of(nominators@),
            nominators.keys(),
            validator,
        ),
{
    let ghost start = out@;
    let ghost order = nominators.keys();
    let ghost lists = lists_of(nominators@);
    let n = nominators.len();
    let mut index: usize = 0;
    proof {
        assert(start + nominator_rewards(lists, order.take(0), validator) =~= start);
    }
    while index < n
        invariant
            nominators.wf(),
            order == nominators.keys(),
            lists == lists_of(nominators@),
            n == order.len(),
            index <= n,
            out@ == start + nominator_rewards(lists, order.take(index as int), validator),
        decreases n - index,
    {
        let nominator = nominators.account_at(index);
        let list = nominators.value_at(index);
        proof {
            let next = order.take(index + 1);
            assert(next.drop_last() =~= order.take(index as int));
            assert(next.last() == nominator);
            assert(lists[nominator] == nomination_entries(*list));
        }
        let ghost before = out@;
        push_list_rewards(nominator, list, validator, out);
        proof {
            let earned = list_rewards(nominator, nomination_entries(*list), validator);
            assert(out@ == before + earned);
            assert(out@ =~= start + nominator_rewards(lists, order.take(index + 1), validator));
        }
        index += 1;
    }
    proof {
        assert(order.take(n as int) =~= order);
    }
}

/// Credits the rewards to the pending amounts, first to last.
fn credit_rewards(pending: &mut AccountMap<Balance>, rewards: &Vec<Reward>)
    requires
        old(pending).wf(),
    ensures
        final(pending).wf(),
        final(pending)@ == credit_all(old(pending)@, rewards@),
{
    let ghost start = pending@;
    let n = rewards.len();
    let mut index: usize = 0;
    while index < n
        invariant
            pending.wf(),
            n == rewards@.len(),
            index <= n,
            pending@ == credit_all(start, rewards@.take(index as int)),
        decreases n - index,
    {
        let reward = rewards[index];
        proof {
            let next = rewards@.take(index + 1);
            assert(next.drop_last() =~= rewards@.take(index as int));
            assert(next.last() == reward);
        }
        let held = amount_of(pending, reward.account);
        pending.insert(reward.account, checked_add_or_keep(held, reward.amount));
        index += 1;
    }
    proof {
        assert(rewards@.take(n as int) =~= rewards@);
    }
}

impl View for Pallet {
    type V = State;

    closed spec fn view(&self) -> State {
        State {
            config: self.config,
            validators: self.validators@,
            nominators: lists_of(self.nominators@),
            total_validator_stake: self.total_validator_stake@,
            pending_rewards: self.pending_rewards@,
            validator_count: self.validator_count,
            total_staked: self.total_staked,
            current_era: self.current_era,
            era_start_block: self.era_start_block,
        }
    }
}

impl Pallet {
    /// The ledger is in order: its maps are sound and its state is one that
    /// the operations keep within [`State::inv`].
    pub closed spec fn wf(&self) -> bool {
        &&& self.validators.wf()
        &&& self.nominators.wf()
        &&& self.total_validator_stake.wf()
        &&& self.pending_rewards.wf()
        &&& self@.inv()
    }

    /// A ledger in order is within the invariant of the model.
    pub proof fn lemma_wf(&self)
        requires
            self.wf(),
        ensures
            self@.inv(),
    {
    }

    /// A ledger in which nothing has happened yet.
    pub fn new(config: Config) -> (pallet: Pallet)
        ensures
            pallet.wf(),
            pallet@ == State::genesis(config),
    {
        let pallet = Pallet {
            config,
            validators: AccountMap::new(),
            nominators: AccountMap::new(),
            total_validator_stake: AccountMap::new(),
            pending_rewards: AccountMap::new(),
            validator_count: 0,
            total_staked: 0,
            current_era: 0,
            era_start_block: 0,
        };
        proof {
            assert(lists_of(pallet.nominators@) =~= Map::<AccountId, Seq<Nomination>>::empty());
            assert(pallet@ =~= State::genesis(config));
        }
        pallet
    }

    /// Appends the rewards that the validator at `index` brings.
    fn push_validator_rewards(&self, index: usize, out: &mut Vec<Reward>)
        requires
            self.wf(),
            index < self.validators.keys().len(),
        ensures
            final(out)@ == old(out)@ + self@.validator_rewards(
                self.validators.keys()[index as int],
            ),
    {
        let validator = self.validators.account_at(index);
        let stake = *self.validators.value_at(index);
        let ghost start = out@;
        if amount_of(&self.total_validator_stake, validator) == 0 {
            proof {
                assert(out@ =~= start + self@.validator_rewards(validator));
            }
            return ;
        }
        let own = validator_reward(stake);
        if own != 0 {
            out.push(Reward { account: validator, amount: own });
        }
        push_nominator_rewards(&self.nominators, validator, out);
        proof {
            self.nominators.lemma_keys();
            assert(lists_of(self.nominators@).dom() =~= self.nominators@.dom());
            assert(out@ =~= start + self@.validator_rewards(validator));
        }
    }

    /// All rewards of one era: see [`State::era_rewards`].
    pub fn era_rewards(&self) -> (rewards: Vec<Reward>)
        requires
            self.wf(),
        ensures
            rewards@ == self@.era_rewards(),
    {
        let mut rewards: Vec<Reward> = Vec::new();
        if self.total_staked == 0 || self.config.reward_rate == 0 {
            return rewards;
        }
        let ghost order = self.validators.keys();
        let n = self.validators.len();
        let mut index: usize = 0;
        while index < n
            invariant
                self.wf(),
                order == self.validators.keys(),
                n == order.len(),
                index <= n,
                rewards@ == self@.rewards_of(order.take(index as int)),
            decreases n - index,
        {
            proof {
                let next = order.take(index + 1);
                assert(next.drop_last() =~= order.take(index as int));
                assert(next.last() == order[index as int]);
            }
            self.push_validator_rewards(index, &mut rewards);
            index += 1;
        }
        proof {
            assert(order.take(n as int) =~= order);
            self.validators.lemma_keys();
        }
        rewards
    }

    /// Ends an era: credits to each validator and to each nominator what it
    /// has earned, and closes the era with one event.
    ///
    /// While nothing is staked, or the reward rate is zero, nothing is
    /// credited. Otherwise each validator with any stake behind it, in
    /// ascending order of account, earns [`validator_reward`] of its own
    /// stake, and after it each nominator, in ascending order of account,
    /// earns [`nominator_reward`] of each nomination that names the
    /// validator. A reward of zero is left out.
    ///
    /// The event is returned in every case. It carries the reward that
    /// everything staked would earn at the validators' rate, which is zero
    /// while nothing is staked.
    ///
    /// [`validator_reward`]: crate::rewards::validator_reward
    /// [`nominator_reward`]: crate::rewards::nominator_reward
    pub fn distribute_rewards(&mut self, era: EraIndex) -> (distribution: Distribution)
        requires
            old(self).wf(),
        ensures
            final(self).wf(),
            final(self)@ == old(self)@.after_distribute_rewards(),
            distribution.rewards@ == old(self)@.era_rewards(),
            distribution.event == old(self)@.distribution_event(era),
    {
        let total_reward = validator_reward(self.total_staked);
        let event = Event::RewardsDistributed(era, total_reward);
        if self.total_staked == 0 || self.config.reward_rate == 0 {
            proof {
                assert(self@ =~= old(self)@.after_distribute_rewards());
            }
            return Distribution { rewards: Vec::new(), event };
        }
        let rewards = self.era_rewards();
        credit_rewards(&mut self.pending_rewards, &rewards);
        proof {
            assert(self@ =~= old(self)@.after_distribute_rewards());
        }
        Distribution { rewards, event }
    }

    /// Registers the signer as a validator with `stake` of its own.
    ///
    /// `free_balance` is the free balance of the signer. Refused with
    /// `BadOrigin` unless the origin is signed, with `AlreadyValidator` for a
    /// registered account, with `StakeBelowMinimum` for a stake below the
    /// configured minimum, with `InsufficientBalance` where the free balance
    /// does not cover the stake; the first that applies. Otherwise the stake
    /// becomes the validator's own stake and all that stands behind it, and
    /// is added to the total staked.
    pub fn register_validator(
        &mut self,
        origin: Origin,
        stake: Balance,
        free_balance: Balance,
    ) -> (res: Result<Event, Error>)
        requires
            old(self).wf(),
        ensures
            final(self).wf(),
            res == old(self)@.register_validator_result(origin, stake, free_balance),
            final(self)@ == old(self)@.after_register_validator(origin, stake, free_balance),
            res is Err ==> final(self)@ == old(self)@,
            res matches Ok(event) ==> event.spec_currency_action() == Some(
                CurrencyAction::Reserve(origin->Signed_0, stake),
            ),
    {
        let who = match origin.ensure_signed() {
            Ok(who) => who,
            Err(e) => {
                return Err(e);
            },
        };
        if self.validators.contains_key(who) {
            return Err(Error::AlreadyValidator);
        }
        if stake < self.config.min_stake {
            return Err(Error::StakeBelowMinimum);
        }
        if free_balance < stake {
            return Err(Error::InsufficientBalance);
        }
        self.validators.insert(who, stake);
        self.total_validator_stake.insert(who, stake);
        if self.validator_count < u32::MAX {
            self.validator_count = self.validator_count + 1;
        }
        self.total_staked = checked_add_or_keep(self.total_staked, stake);
        proof {
            assert(self@ =~= old(self)@.registered(who, stake));
        }
        Ok(Event::ValidatorRegistered(who, stake))
    }

    /// Takes the signer out of the validators and frees its stake.
    ///
    /// Refused with `BadOrigin` unless the origin is signed, and with
    /// `NotValidator` for an account without a stake of its own. Otherwise
    /// the validator's entries are deleted and its own stake leaves the total
    /// staked. Nominations that name the validator stay with their
    /// nominators.
    pub fn remove_validator(&mut self, origin: Origin) -> (res: Result<Event, Error>)
        requires
            old(self).wf(),
        ensures
            final(self).wf(),
            res == old(self)@.remove_validator_result(origin),
            final(self)@ == old(self)@.after_remove_validator(origin),
            res is Err ==> final(self)@ == old(self)@,
            res matches Ok(event) ==> event.spec_currency_action() == Some(
                CurrencyAction::Unreserve(
                    origin->Signed_0,
                    balance_of(old(self)@.validators, origin->Signed_0),
                ),
            ),
    {
        let who = match origin.ensure_signed() {
            Ok(who) => who,
            Err(e) => {
                return Err(e);
            },
        };
        let stake = amount_of(&self.validators, who);
        if stake == 0 {
            return Err(Error::NotValidator);
        }
        self.validators.remove(who);
        self.total_validator_stake.remove(who);
        if self.validator_count > 0 {
            self.validator_count = self.validator_count - 1;
        }
        self.total_staked = checked_sub_or_keep(self.total_staked, stake);
        proof {
            assert(self@ =~= old(self)@.removed(who));
        }
        Ok(Event::ValidatorRemoved(who, stake))
    }

    /// Places `amount` of the signer behind `validator`.
    ///
    /// `free_balance` is the free balance of the signer. Refused with
    /// `BadOrigin` unless the origin is signed, with `NotValidator` where the
    /// validator is not registered, with `NominationBelowMinimum` for an
    /// amount below the configured minimum, with `InsufficientBalance` where
    /// the free balance does not cover the amount, with `AlreadyNominated`
    /// where the signer has named the validator already, with
    /// `MaxNominationsReached` where the signer holds the configured maximum
    /// of nominations; the first that applies. Otherwise the nomination is
    /// appended to the signer's list and the amount is added to what stands
    /// behind the validator and to the total staked.
    pub fn nominate(
        &mut self,
        origin: Origin,
        validator: AccountId,
        amount: Balance,
        free_balance: Balance,
    ) -> (res: Result<Event, Error>)
        requires
            old(self).wf(),
        ensures
            final(self).wf(),
            res == old(self)@.nominate_result(origin, validator, amount, free_balance),
            final(self)@ == old(self)@.after_nominate(origin, validator, amount, free_balance),
            res is Err ==> final(self)@ == old(self)@,
            res matches Ok(event) ==> event.spec_currency_action() == Some(
                CurrencyAction::Reserve(origin->Signed_0, amount),
            ),
    {
        let who = match origin.ensure_signed() {
            Ok(who) => who,
            Err(e) => {
                return Err(e);
            },
        };
        if !self.validators.contains_key(validator) {
            return Err(Error::NotValidator);
        }
        if amount < self.config.min_nomination {
            return Err(Error::NominationBelowMinimum);
        }
        if free_balance < amount {
            return Err(Error::InsufficientBalance);
        }
        let (named, held) = match self.nominators.get(who) {
            Some(list) => (find_nomination(list, validator).is_some(), list_len(list)),
            None => (false, 0),
        };
        if named {
            return Err(Error::AlreadyNominated);
        }
        if held >= self.config.max_nominations as usize {
            return Err(Error::MaxNominationsReached);
        }
        let mut list = match self.nominators.remove(who) {
            Some(list) => list,
            None => list_new(),
        };
        let ghost before = nomination_entries(list);
        let nomination = Nomination { validator, amount };
        if list_try_push(&mut list, nomination).is_err() {
            // The list type admits more entries than any configured maximum.
            self.nominators.insert(who, list);
            return Err(Error::MaxNominationsReached);
        }
        self.nominators.insert(who, list);
        let behind = amount_of(&self.total_validator_stake, validator);
        self.total_validator_stake.insert(validator, checked_add_or_keep(behind, amount));
        self.total_staked = checked_add_or_keep(self.total_staked, amount);
        proof {
            let next = old(self)@.nominated(who, validator, amount);
            assert(before == old(self)@.nominations_of(who));
            assert(self@.nominators =~= next.nominators);
            assert(self@ =~= next);
            lemma_push_distinct(before, nomination);
        }
        Ok(Event::Nomination(who, validator, amount))
    }

    /// Takes back what the signer has placed behind `validator`.
    ///
    /// Refused with `BadOrigin` unless the origin is signed, and with
    /// `NominationNotFound` where the signer has not named the validator.
    /// Otherwise the nomination leaves the signer's list, the last
    /// nomination of the list takes its place, and its amount leaves what
    /// stands behind the validator and the total staked.
    pub fn withdraw_nomination(&mut self, origin: Origin, validator: AccountId) -> (res: Result<
        Event,
        Error,
    >)
        requires
            old(self).wf(),
        ensures
            final(self).wf(),
            res == old(self)@.withdraw_nomination_result(origin, validator),
            final(self)@ == old(self)@.after_withdraw_nomination(origin, validator),
            res is Err ==> final(self)@ == old(self)@,
            res matches Ok(event) ==> exists|index: int|
                is_first_nomination(
                    old(self)@.nominations_of(origin->Signed_0),
                    validator,
                    index,
                ) && event.spec_currency_action() == Some(
                    CurrencyAction::Unreserve(
                        origin->Signed_0,
                        old(self)@.nominations_of(origin->Signed_0)[index].amount,
                    ),
                ),
    {
        let who = match origin.ensure_signed() {
            Ok(who) => who,
            Err(e) => {
                return Err(e);
            },
        };
        let position = match self.nominators.get(who) {
            Some(list) => find_nomination(list, validator),
            None => None,
        };
        let index = match position {
            Some(index) => index,
            None => {
                return Err(Error::NominationNotFound);
            },
        };
        let mut list = match self.nominators.remove(who) {
            Some(list) => list,
            None => {
                return Err(Error::NominationNotFound);
            },
        };
        let ghost before = nomination_entries(list);
        proof {
            lemma_first_nomination(before, validator, index as int);
        }
        let nomination = list_swap_remove(&mut list, index);
        self.nominators.insert(who, list);
        let behind = amount_of(&self.total_validator_stake, validator);
        self.total_validator_stake.insert(validator, checked_sub_or_keep(behind, nomination.amount));
        self.total_staked = checked_sub_or_keep(self.total_staked, nomination.amount);
        proof {
            let next = old(self)@.withdrawn(who, validator);
            assert(before == old(self)@.nominations_of(who));
            assert(self@.nominators =~= next.nominators);
            assert(self@ =~= next);
            lemma_swap_removed_distinct(before, index as int);
        }
        Ok(Event::NominationWithdrawn(who, validator, nomination.amount))
    }

    /// Hands the signer what is pending for it.
    ///
    /// Refused with `BadOrigin` unless the origin is signed, and with
    /// `NoRewards` where nothing is pending. Otherwise the pending amount is
    /// cleared and reported in the event.
    pub fn claim_rewards(&mut self, origin: Origin) -> (res: Result<Event, Error>)
        requires
            old(self).wf(),
        ensures
            final(self).wf(),
            res == old(self)@.claim_rewards_result(origin),
            final(self)@ == old(self)@.after_claim_rewards(origin),
            res is Err ==> final(self)@ == old(self)@,
            res matches Ok(event) ==> event.spec_currency_action() == Some(
                CurrencyAction::Deposit(
                    origin->Signed_0,
                    balance_of(old(self)@.pending_rewards, origin->Signed_0),
                ),
            ),
    {
        let who = match origin.ensure_signed() {
            Ok(who) => who,
            Err(e) => {
                return Err(e);
            },
        };
        let rewards = amount_of(&self.pending_rewards, who);
        if rewards == 0 {
            return Err(Error::NoRewards);
        }
        self.pending_rewards.remove(who);
        proof {
            assert(self@ =~= old(self)@.claimed(who));
        }
        Ok(Event::RewardsClaimed(who, rewards))
    }

    /// Takes `slash_percent` in 100 from the validator's own stake.
    ///
    /// Refused with `BadOrigin` unless the origin is the governance
    /// authority, with `InvalidSlashPercentage` unless the percentage is
    /// between 1 and 100, with `NotValidator` for an account without a stake
    /// of its own, with `ZeroSlashAmount` where the slash comes to nothing;
    /// the first that applies. Otherwise the amount, rounded down, leaves the
    /// validator's own stake, what stands behind it and the total staked, and
    /// is reported in the event. Nominations are not touched.
    pub fn slash_validator(&mut self, origin: Origin, validator: AccountId, slash_percent: u32) -> (res:
        Result<Event, Error>)
        requires
            old(self).wf(),
        ensures
            final(self).wf(),
            res == old(self)@.slash_validator_result(origin, validator, slash_percent),
            final(self)@ == old(self)@.after_slash_validator(origin, validator, slash_percent),
            res is Err ==> final(self)@ == old(self)@,
            res matches Ok(event) ==> event.spec_currency_action() == Some(
                CurrencyAction::SlashReserved(
                    validator,
                    spec_slash_amount(balance_of(old(self)@.validators, validator), slash_percent),
                ),
            ),
    {
        match origin.ensure_root() {
            Ok(_) => {},
            Err(e) => {
                return Err(e);
            },
        }
        if !(slash_percent > 0 && slash_percent <= 100) {
            return Err(Error::InvalidSlashPercentage);
        }
        let validator_stake = amount_of(&self.validators, validator);
        if validator_stake == 0 {
            return Err(Error::NotValidator);
        }
        let amount = slash_amount(validator_stake, slash_percent);
        if amount == 0 {
            return Err(Error::ZeroSlashAmount);
        }
        match self.do_slash(validator, amount) {
            Ok(_) => {},
            Err(e) => {
                return Err(e);
            },
        }
        Ok(Event::ValidatorSlashed(validator, amount, slash_percent))
    }

    /// Takes `slash_amount` from the validator's own stake.
    ///
    /// Refused with `ZeroSlashAmount` for an amount of zero and with
    /// `InsufficientStake` for an amount above the validator's own stake.
    /// Otherwise the amount leaves the validator's own stake; what stands
    /// behind the validator and the total staked lose the amount too, or
    /// fall to zero where they are smaller. The result names the currency
    /// that is to be destroyed in the validator's reserve.
    pub fn do_slash(&mut self, validator: AccountId, slash_amount: Balance) -> (res: Result<
        CurrencyAction,
        Error,
    >)
        requires
            old(self).wf(),
        ensures
            final(self).wf(),
            res == old(self)@.do_slash_result(validator, slash_amount),
            final(self)@ == old(self)@.after_do_slash(validator, slash_amount),
            res is Err ==> final(self)@ == old(self)@,
    {
        if slash_amount == 0 {
            return Err(Error::ZeroSlashAmount);
        }
        let current_stake = amount_of(&self.validators, validator);
        let remaining_stake = match current_stake.checked_sub(slash_amount) {
            Some(remaining) => remaining,
            None => {
                return Err(Error::InsufficientStake);
            },
        };
        self.validators.insert(validator, remaining_stake);
        let behind = amount_of(&self.total_validator_stake, validator);
        self.total_validator_stake.insert(validator, checked_sub_or_zero(behind, slash_amount));
        self.total_staked = checked_sub_or_zero(self.total_staked, slash_amount);
        proof {
            assert(self@ =~= old(self)@.slashed(validator, slash_amount));
        }
        Ok(CurrencyAction::SlashReserved(validator, slash_amount))
    }

    /// Begins block `n`.
    ///
    /// Where `n` is at least an era's length beyond the block at which the
    /// running era began, the next era begins at `n`, the rewards of the era
    /// that ended are distributed and the era is closed with its event: see
    /// [`Pallet::distribute_rewards`]. Otherwise nothing changes and there is
    /// no event.
    pub fn on_initialize(&mut self, n: BlockNumber) -> (outcome: BlockOutcome)
        requires
            old(self).wf(),
        ensures
            final(self).wf(),
            final(self)@ == old(self)@.after_on_initialize(n),
            old(self)@.era_ends_at(n) ==> {
                &&& outcome.weight == 10_000_000
                &&& outcome.rewards@ == old(self)@.era_rewards()
                &&& outcome.event == Some(
                    old(self)@.distribution_event(old(self)@.current_era),
                )
            },
            !old(self)@.era_ends_at(n) ==> {
                &&& outcome.weight == 1_000_000
                &&& outcome.rewards@ == Seq::<Reward>::empty()
                &&& outcome.event == None::<Event>
            },
    {
        let era_start_block = self.era_start_block;
        if n >= era_start_block && n - era_start_block >= ERA_DURATION as u64 {
            let current_era = self.current_era;
            if current_era < u32::MAX {
                self.current_era = current_era + 1;
            }
            self.era_start_block = n;
            proof {
                assert(self@ =~= old(self)@.next_era(n));
                old(self)@.lemma_era_rewards_depend_on_stakes(self@);
            }
            let distribution = self.distribute_rewards(current_era);
            BlockOutcome {
                weight: 10_000_000,
                rewards: distribution.rewards,
                event: Some(distribution.event),
            }
        } else {
            BlockOutcome { weight: 1_000_000, rewards: Vec::new(), event: None }
        }
    }

    /// The values fixed at creation.
    pub fn config(&self) -> (config: Config)
        ensures
            config == self@.config,
    {
        self.config
    }

    /// The validator's own stake: zero for an account that is not registered.
    pub fn validators(&self, who: AccountId) -> (stake: Balance)
        requires
            self.wf(),
        ensures
            stake == balance_of(self@.validators, who),
    {
        amount_of(&self.validators, who)
    }

    /// Whether the account is registered as a validator.
    pub fn is_validator(&self, who: AccountId) -> (registered: bool)
        requires
            self.wf(),
        ensures
            registered == self@.validators.contains_key(who),
    {
        self.validators.contains_key(who)
    }

    /// The nominations of the account, in the order of its list.
    pub fn nominators(&self, who: AccountId) -> (nominations: Vec<Nomination>)
        requires
            self.wf(),
        ensures
            nominations@ == self@.nominations_of(who),
    {
        match self.nominators.get(who) {
            Some(list) => list_to_vec(list),
            None => Vec::new(),
        }
    }

    /// What stands behind the validator: its own stake and the nominations.
    pub fn total_validator_stake(&self, who: AccountId) -> (stake: Balance)
        requires
            self.wf(),
        ensures
            stake == balance_of(self@.total_validator_stake, who),
    {
        amount_of(&self.total_validator_stake, who)
    }

    /// The number of registered validators.
    pub fn validator_count(&self) -> (count: u32)
        ensures
            count == self@.validator_count,
    {
        self.validator_count
    }

    /// Everything staked and nominated.
    pub fn total_staked(&self) -> (total: Balance)
        ensures
            total == self@.total_staked,
    {
        self.total_staked
    }

    /// What is pending for the account.
    pub fn pending_rewards(&self, who: AccountId) -> (rewards: Balance)
        requires
            self.wf(),
        ensures
            rewards == balance_of(self@.pending_rewards, who),
    {
        amount_of(&self.pending_rewards, who)
    }

    /// The era that is running.
    pub fn current_era(&self) -> (era: EraIndex)
        ensures
            era == self@.current_era,
    {
        self.current_era
    }

    /// The block at which the running era began.
    pub fn era_start_block(&self) -> (block: BlockNumber)
        ensures
            block == self@.era_start_block,
    {
        self.era_start_block
    }
}

} // verus!
