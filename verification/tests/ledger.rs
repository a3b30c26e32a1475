use std::collections::HashMap;

use staking_ledger::pallet::Pallet;
use staking_ledger::types::{Balance, Config, CurrencyAction, Error, Event, Origin};

/// A currency that keeps a free and a reserved balance for each account.
struct Bank {
    free: HashMap<u64, Balance>,
    reserved: HashMap<u64, Balance>,
}

impl Bank {
    fn free_balance(&self, who: u64) -> Balance {
        self.free.get(&who).copied().unwrap_or(0)
    }

    fn reserved_balance(&self, who: u64) -> Balance {
        self.reserved.get(&who).copied().unwrap_or(0)
    }

    fn perform(&mut self, action: CurrencyAction) {
        match action {
            CurrencyAction::Reserve(who, amount) => {
                *self.free.entry(who).or_insert(0) -= amount;
                *self.reserved.entry(who).or_insert(0) += amount;
            }
            CurrencyAction::Unreserve(who, amount) => {
                *self.reserved.entry(who).or_insert(0) -= amount;
                *self.free.entry(who).or_insert(0) += amount;
            }
            CurrencyAction::SlashReserved(who, amount) => {
                *self.reserved.entry(who).or_insert(0) -= amount;
            }
            CurrencyAction::Deposit(who, amount) => {
                *self.free.entry(who).or_insert(0) += amount;
            }
        }
    }
}

/// The ledger together with a currency and a record of the events.
struct TestRuntime {
    pallet: Pallet,
    bank: Bank,
    events: Vec<Event>,
}

impl TestRuntime {
    fn signer(origin: Origin) -> u64 {
        match origin {
            Origin::Signed(who) => who,
            _ => 0,
        }
    }

    fn settle(&mut self, result: Result<Event, Error>) -> Result<(), Error> {
        let event = result?;
        if let Some(action) = event.currency_action() {
            self.bank.perform(action);
        }
        self.events.push(event);
        Ok(())
    }

    fn register_validator(&mut self, origin: Origin, stake: Balance) -> Result<(), Error> {
        let free = self.bank.free_balance(Self::signer(origin));
        let result = self.pallet.register_validator(origin, stake, free);
        self.settle(result)
    }

    fn remove_validator(&mut self, origin: Origin) -> Result<(), Error> {
        let result = self.pallet.remove_validator(origin);
        self.settle(result)
    }

    fn nominate(&mut self, origin: Origin, validator: u64, amount: Balance) -> Result<(), Error> {
        let free = self.bank.free_balance(Self::signer(origin));
        let result = self.pallet.nominate(origin, validator, amount, free);
        self.settle(result)
    }

    fn withdraw_nomination(&mut self, origin: Origin, validator: u64) -> Result<(), Error> {
        let result = self.pallet.withdraw_nomination(origin, validator);
        self.settle(result)
    }

    fn claim_rewards(&mut self, origin: Origin) -> Result<(), Error> {
        let result = self.pallet.claim_rewards(origin);
        self.settle(result)
    }

    fn on_initialize(&mut self, n: u64) {
        let outcome = self.pallet.on_initialize(n);
        for reward in outcome.rewards {
            self.bank.perform(CurrencyAction::Deposit(reward.account, reward.amount));
        }
        if let Some(event) = outcome.event {
            self.events.push(event);
        }
    }

    fn has_event(&self, event: Event) -> bool {
        self.events.contains(&event)
    }
}

fn runtime_with(balance: Balance) -> TestRuntime {
    let config = Config { min_stake: 100, min_nomination: 10, max_nominations: 4, reward_rate: 100 };
    let mut free = HashMap::new();
    for who in 1..=5u64 {
        free.insert(who, balance);
    }
    TestRuntime {
        pallet: Pallet::new(config),
        bank: Bank { free, reserved: HashMap::new() },
        events: Vec::new(),
    }
}

fn new_test_ext() -> TestRuntime {
    runtime_with(1000)
}

/// The call is refused with `error`, and neither the ledger nor the currency
/// has changed.
fn assert_noop(
    runtime: &mut TestRuntime,
    call: impl FnOnce(&mut TestRuntime) -> Result<(), Error>,
    error: Error,
) {
    let pallet = runtime.pallet.clone();
    let free = runtime.bank.free.clone();
    let reserved = runtime.bank.reserved.clone();
    let events = runtime.events.len();
    assert_eq!(call(runtime), Err(error));
    assert_eq!(runtime.pallet, pallet);
    assert_eq!(runtime.bank.free, free);
    assert_eq!(runtime.bank.reserved, reserved);
    assert_eq!(runtime.events.len(), events);
}

#[test]
fn register_validator_works() {
    let mut t = new_test_ext();

    // Register validator with 500 tokens
    assert_eq!(t.register_validator(Origin::signed(1), 500), Ok(()));

    // Check validator is registered
    assert_eq!(t.pallet.validators(1), 500);

    // Check validator count
    assert_eq!(t.pallet.validator_count(), 1);

    // Check total staked
    assert_eq!(t.pallet.total_staked(), 500);

    // Check total validator stake
    assert_eq!(t.pallet.total_validator_stake(1), 500);

    // The event was recorded
    assert!(t.has_event(Event::ValidatorRegistered(1, 500)));

    // The stake was reserved
    assert_eq!(t.bank.free_balance(1), 500);
    assert_eq!(t.bank.reserved_balance(1), 500);
}

#[test]
fn register_validator_fails_when_already_registered() {
    let mut t = new_test_ext();

    // Register as validator
    assert_eq!(t.register_validator(Origin::signed(1), 500), Ok(()));

    // Try to register again
    assert_noop(&mut t, |t| t.register_validator(Origin::signed(1), 600), Error::AlreadyValidator);
}

#[test]
fn register_validator_fails_with_insufficient_stake() {
    let mut t = new_test_ext();

    // Try to register with less than minimum stake
    assert_noop(&mut t, |t| t.register_validator(Origin::signed(1), 50), Error::StakeBelowMinimum);
}

#[test]
fn register_validator_fails_with_insufficient_balance() {
    let mut t = new_test_ext();

    // Try to register with more than balance
    assert_noop(
        &mut t,
        |t| t.register_validator(Origin::signed(1), 2000),
        Error::InsufficientBalance,
    );
}

#[test]
fn remove_validator_works() {
    let mut t = new_test_ext();

    // Register as validator
    assert_eq!(t.register_validator(Origin::signed(1), 500), Ok(()));

    // Remove validator status
    assert_eq!(t.remove_validator(Origin::signed(1)), Ok(()));

    // Check validator is removed
    assert_eq!(t.pallet.validators(1), 0);
    assert!(!t.pallet.is_validator(1));

    // Check validator count
    assert_eq!(t.pallet.validator_count(), 0);

    // Check total staked
    assert_eq!(t.pallet.total_staked(), 0);

    // The stake is free again
    assert!(t.has_event(Event::ValidatorRemoved(1, 500)));
    assert_eq!(t.bank.free_balance(1), 1000);
    assert_eq!(t.bank.reserved_balance(1), 0);
}

#[test]
fn remove_validator_fails_when_not_validator() {
    let mut t = new_test_ext();

    // Try to remove validator status when not a validator
    assert_noop(&mut t, |t| t.remove_validator(Origin::signed(1)), Error::NotValidator);
}

#[test]
fn nominate_works() {
    let mut t = new_test_ext();

    // Register validator
    assert_eq!(t.register_validator(Origin::signed(1), 500), Ok(()));

    // Nominate validator
    assert_eq!(t.nominate(Origin::signed(2), 1, 100), Ok(()));

    // Check nomination is stored
    let nominations = t.pallet.nominators(2);
    assert_eq!(nominations.len(), 1);
    assert_eq!(nominations[0].validator, 1);
    assert_eq!(nominations[0].amount, 100);

    // Check total validator stake is updated
    assert_eq!(t.pallet.total_validator_stake(1), 600);

    // Check total staked is updated
    assert_eq!(t.pallet.total_staked(), 600);

    // The event was recorded
    assert!(t.has_event(Event::Nomination(2, 1, 100)));

    // The amount was reserved
    assert_eq!(t.bank.free_balance(2), 900);
    assert_eq!(t.bank.reserved_balance(2), 100);
}

#[test]
fn nominate_fails_when_validator_not_exists() {
    let mut t = new_test_ext();

    // Try to nominate non-existent validator
    assert_noop(&mut t, |t| t.nominate(Origin::signed(2), 1, 100), Error::NotValidator);
}

#[test]
fn nominate_fails_with_insufficient_amount() {
    let mut t = new_test_ext();

    // Register validator
    assert_eq!(t.register_validator(Origin::signed(1), 500), Ok(()));

    // Try to nominate with less than minimum
    assert_noop(&mut t, |t| t.nominate(Origin::signed(2), 1, 5), Error::NominationBelowMinimum);
}

#[test]
fn nominate_fails_when_already_nominated() {
    let mut t = new_test_ext();

    // Register validator
    assert_eq!(t.register_validator(Origin::signed(1), 500), Ok(()));

    // Nominate validator
    assert_eq!(t.nominate(Origin::signed(2), 1, 100), Ok(()));

    // Try to nominate again
    assert_noop(&mut t, |t| t.nominate(Origin::signed(2), 1, 100), Error::AlreadyNominated);
}

#[test]
fn withdraw_nomination_works() {
    let mut t = new_test_ext();

    // Register validator
    assert_eq!(t.register_validator(Origin::signed(1), 500), Ok(()));

    // Nominate validator
    assert_eq!(t.nominate(Origin::signed(2), 1, 100), Ok(()));

    // Withdraw nomination
    assert_eq!(t.withdraw_nomination(Origin::signed(2), 1), Ok(()));

    // Check nomination is removed
    let nominations = t.pallet.nominators(2);
    assert_eq!(nominations.len(), 0);

    // Check total validator stake is updated
    assert_eq!(t.pallet.total_validator_stake(1), 500);

    // Check total staked is updated
    assert_eq!(t.pallet.total_staked(), 500);

    // The event was recorded
    assert!(t.has_event(Event::NominationWithdrawn(2, 1, 100)));

    // The amount is free again
    assert_eq!(t.bank.free_balance(2), 1000);
    assert_eq!(t.bank.reserved_balance(2), 0);
}

#[test]
fn withdraw_nomination_fails_when_not_nominated() {
    let mut t = new_test_ext();

    // Register validator
    assert_eq!(t.register_validator(Origin::signed(1), 500), Ok(()));

    // Try to withdraw non-existent nomination
    assert_noop(&mut t, |t| t.withdraw_nomination(Origin::signed(2), 1), Error::NominationNotFound);
}

#[test]
fn rewards_distribution_works() {
    // A stake earns a reward only from 35_040_000 upwards, and an era lasts
    // 14_400 blocks: the accounts are funded and the clock is advanced
    // accordingly.
    let mut t = runtime_with(1_000_000_000_000);

    // Register validator
    assert_eq!(t.register_validator(Origin::signed(1), 500_000_000_000), Ok(()));

    // Nominate validator
    assert_eq!(t.nominate(Origin::signed(2), 1, 500_000_000_000), Ok(()));

    // Advance blocks to trigger reward distribution
    t.on_initialize(14_400);

    // Check rewards were distributed
    assert!(t.pallet.pending_rewards(1) > 0);
    assert!(t.pallet.pending_rewards(2) > 0);

    // Claim rewards for validator
    let validator_rewards = t.pallet.pending_rewards(1);
    assert_eq!(t.claim_rewards(Origin::signed(1)), Ok(()));

    // Check rewards were claimed
    assert_eq!(t.pallet.pending_rewards(1), 0);

    // Claim rewards for nominator
    let nominator_rewards = t.pallet.pending_rewards(2);
    assert_eq!(t.claim_rewards(Origin::signed(2)), Ok(()));

    // Check rewards were claimed
    assert_eq!(t.pallet.pending_rewards(2), 0);

    // The events were recorded
    assert!(t.has_event(Event::RewardsClaimed(1, validator_rewards)));
    assert!(t.has_event(Event::RewardsClaimed(2, nominator_rewards)));

    // floor(500_000_000_000 * 15 / 525_600_000) * 14_400
    assert_eq!(validator_rewards, 14_269 * 14_400);
    // floor(500_000_000_000 * 10 / 525_600_000) * 14_400
    assert_eq!(nominator_rewards, 9_512 * 14_400);

    // Each reward was created when it was credited and again when it was
    // claimed.
    assert_eq!(t.bank.free_balance(1), 500_000_000_000 + 2 * validator_rewards);
    assert_eq!(t.bank.free_balance(2), 500_000_000_000 + 2 * nominator_rewards);
}

#[test]
fn rewards_need_a_full_era_and_a_stake_that_earns() {
    let mut t = new_test_ext();
    assert_eq!(t.register_validator(Origin::signed(1), 500), Ok(()));
    assert_eq!(t.nominate(Origin::signed(2), 1, 500), Ok(()));

    // Block 2 is within the first era.
    t.on_initialize(2);
    assert_eq!(t.pallet.current_era(), 0);
    assert_eq!(t.pallet.pending_rewards(1), 0);
    assert_eq!(t.pallet.pending_rewards(2), 0);
    assert!(t.events.iter().all(|e| !matches!(e, Event::RewardsDistributed(_, _))));

    // At the end of the era, 500 * 15 / 525_600_000 rounds down to nothing.
    t.on_initialize(14_400);
    assert_eq!(t.pallet.current_era(), 1);
    assert_eq!(t.pallet.pending_rewards(1), 0);
    assert_eq!(t.pallet.pending_rewards(2), 0);
    assert!(t.has_event(Event::RewardsDistributed(0, 0)));
    assert_noop(&mut t, |t| t.claim_rewards(Origin::signed(1)), Error::NoRewards);
    assert_noop(&mut t, |t| t.claim_rewards(Origin::signed(2)), Error::NoRewards);
}

#[test]
fn claim_rewards_fails_when_no_rewards() {
    let mut t = new_test_ext();

    // Try to claim rewards when none exist
    assert_noop(&mut t, |t| t.claim_rewards(Origin::signed(1)), Error::NoRewards);
}

#[test]
fn end_to_end_stake_nominate_withdraw_reward_claim() {
    let mut t = runtime_with(1_000_000_000_000);

    assert_eq!(t.register_validator(Origin::signed(1), 500), Ok(()));
    assert_eq!(t.pallet.total_staked(), 500);
    assert_eq!(t.pallet.total_validator_stake(1), 500);

    assert_eq!(t.nominate(Origin::signed(2), 1, 100), Ok(()));
    assert_eq!(t.pallet.total_validator_stake(1), 600);
    assert_eq!(t.pallet.total_staked(), 600);

    assert_eq!(t.withdraw_nomination(Origin::signed(2), 1), Ok(()));
    assert_eq!(t.pallet.total_validator_stake(1), 500);
    assert_eq!(t.pallet.total_staked(), 500);

    // Stakes that are large enough to earn.
    assert_eq!(t.register_validator(Origin::signed(3), 70_080_000), Ok(()));
    assert_eq!(t.nominate(Origin::signed(4), 3, 105_120_000), Ok(()));
    t.on_initialize(14_400);

    // floor(70_080_000 * 15 / 525_600_000) = 2, floor(105_120_000 * 10 / 525_600_000) = 2
    assert_eq!(t.pallet.pending_rewards(3), 2 * 14_400);
    assert_eq!(t.pallet.pending_rewards(4), 2 * 14_400);
    assert_eq!(t.pallet.pending_rewards(1), 0);
    assert_eq!(t.pallet.pending_rewards(2), 0);

    let free_validator = t.bank.free_balance(3);
    let free_nominator = t.bank.free_balance(4);
    assert_eq!(t.claim_rewards(Origin::signed(3)), Ok(()));
    assert_eq!(t.claim_rewards(Origin::signed(4)), Ok(()));
    assert_eq!(t.pallet.pending_rewards(3), 0);
    assert_eq!(t.pallet.pending_rewards(4), 0);
    assert_eq!(t.bank.free_balance(3), free_validator + 2 * 14_400);
    assert_eq!(t.bank.free_balance(4), free_nominator + 2 * 14_400);
    assert!(t.has_event(Event::RewardsClaimed(3, 28_800)));
    assert!(t.has_event(Event::RewardsClaimed(4, 28_800)));
}
