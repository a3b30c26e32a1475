//! The sums that the totals of the ledger stand for, and the laws that tie
//! the totals to them.
//!
//! A sum that does not fit into a `Balance` is not formed: the total keeps
//! its old value. So each law holds as long as the sums fit, and says so.

use vstd::prelude::*;
use crate::model::{
    balance_of, credit_all, first_nomination, lemma_has_first_nomination, Call, State,
};
use crate::rewards::spec_slash_amount;
use crate::nomination_list::swap_removed;
use crate::types::{AccountId, Balance, Config, Event, Nomination, Origin, Reward};

verus! {

/// The sum of the stakes of the accounts below `bound`.
pub open spec fn stake_below(stakes: Map<AccountId, Balance>, bound: nat) -> nat
    decreases bound,
{
    if bound == 0 {
        0
    } else {
        let account = (bound - 1) as nat;
        stake_below(stakes, account) + if account <= u64::MAX {
            balance_of(stakes, account as AccountId) as nat
        } else {
            0
        }
    }
}

/// The sum of all stakes in the map.
pub open spec fn total_self_stake(stakes: Map<AccountId, Balance>) -> nat {
    stake_below(stakes, 0x1_0000_0000_0000_0000)
}

/// A new stake for one account changes the sum by the difference to the old
/// one, for the bounds above the account.
proof fn lemma_stake_below_insert(
    stakes: Map<AccountId, Balance>,
    who: AccountId,
    stake: Balance,
    bound: nat,
)
    ensures
        stake_below(stakes.insert(who, stake), bound) == stake_below(stakes, bound) + if who
            < bound {
            stake - balance_of(stakes, who)
        } else {
            0
        },
    decreases bound,
{
    if bound > 0 {
        lemma_stake_below_insert(stakes, who, stake, (bound - 1) as nat);
    }
}

/// Without an account the sum is smaller by the account's stake, for the
/// bounds above the account.
proof fn lemma_stake_below_remove(stakes: Map<AccountId, Balance>, who: AccountId, bound: nat)
    ensures
        stake_below(stakes.remove(who), bound) == stake_below(stakes, bound) - if who < bound {
            balance_of(stakes, who) as int
        } else {
            0
        },
    decreases bound,
{
    if bound > 0 {
        lemma_stake_below_remove(stakes, who, (bound - 1) as nat);
    }
}

/// Whether the call is a registration or a removal of a validator.
pub open spec fn is_registration_or_removal(call: Call) -> bool {
    call is RegisterValidator || call is RemoveValidator
}

/// Whether the total staked is the sum of the validators' own stakes.
pub open spec fn total_is_sum_of_stakes(state: State) -> bool {
    state.total_staked == total_self_stake(state.validators)
}

/// One registration or removal keeps the total staked equal to the sum of
/// the validators' own stakes, as long as the sum fits into a `Balance`.
pub proof fn law_registration_and_removal_keep_total(state: State, call: Call)
    requires
        is_registration_or_removal(call),
        total_is_sum_of_stakes(state),
        total_self_stake(state.after(call).validators) <= Balance::MAX,
    ensures
        total_is_sum_of_stakes(state.after(call)),
{
    let top: nat = 0x1_0000_0000_0000_0000;
    match call {
        Call::RegisterValidator { origin, stake, free_balance } => {
            if state.register_validator_result(origin, stake, free_balance) is Ok {
                lemma_stake_below_insert(state.validators, origin->Signed_0, stake, top);
            }
        },
        Call::RemoveValidator { origin } => {
            if state.remove_validator_result(origin) is Ok {
                lemma_stake_below_remove(state.validators, origin->Signed_0, top);
            }
        },
        _ => {},
    }
}

/// Through any history of registrations and removals that begins with an
/// empty ledger, the total staked is the sum of the validators' own stakes
/// after every call, if and only if that sum fits into a `Balance` after
/// every call.
pub proof fn law_total_staked_is_sum_of_stakes(config: Config, calls: Seq<Call>)
    requires
        forall|i: int| 0 <= i < calls.len() ==> is_registration_or_removal(#[trigger] calls[i]),
    ensures
        (forall|n: int|
            0 <= n <= calls.len() ==> total_self_stake(
                #[trigger] State::genesis(config).after_all(calls.take(n)).validators,
            ) <= Balance::MAX) <==> (forall|n: int|
            0 <= n <= calls.len() ==> total_is_sum_of_stakes(
                #[trigger] State::genesis(config).after_all(calls.take(n)),
            )),
{
    let genesis = State::genesis(config);
    if forall|n: int|
        0 <= n <= calls.len() ==> total_self_stake(
            #[trigger] genesis.after_all(calls.take(n)).validators,
        ) <= Balance::MAX {
        assert forall|n: int| 0 <= n <= calls.len() implies total_is_sum_of_stakes(
            #[trigger] genesis.after_all(calls.take(n)),
        ) by {
            lemma_history_keeps_total(config, calls, n);
        }
    }
}

proof fn lemma_empty_stakes(bound: nat)
    ensures
        stake_below(Map::<AccountId, Balance>::empty(), bound) == 0,
    decreases bound,
{
    if bound > 0 {
        lemma_empty_stakes((bound - 1) as nat);
    }
}

proof fn lemma_history_keeps_total(config: Config, calls: Seq<Call>, n: int)
    requires
        0 <= n <= calls.len(),
        forall|i: int| 0 <= i < calls.len() ==> is_registration_or_removal(#[trigger] calls[i]),
        forall|k: int|
            0 <= k <= calls.len() ==> total_self_stake(
                #[trigger] State::genesis(config).after_all(calls.take(k)).validators,
            ) <= Balance::MAX,
    ensures
        total_is_sum_of_stakes(State::genesis(config).after_all(calls.take(n))),
    decreases n,
{
    let genesis = State::genesis(config);
    if n == 0 {
        lemma_empty_stakes(0x1_0000_0000_0000_0000);
        assert(calls.take(0).len() == 0);
    } else {
        lemma_history_keeps_total(config, calls, n - 1);
        let history = calls.take(n);
        assert(history.drop_last() =~= calls.take(n - 1));
        assert(history.last() == calls[n - 1]);
        let before = genesis.after_all(calls.take(n - 1));
        assert(genesis.after_all(history) == before.after(calls[n - 1]));
        law_registration_and_removal_keep_total(before, calls[n - 1]);
    }
}

/// What a nomination adds to a sum: its amount, or nothing where the sum is
/// for one validator and the nomination names another.
pub open spec fn counted(nomination: Nomination, only: Option<AccountId>) -> nat {
    match only {
        Some(validator) => if nomination.validator == validator {
            nomination.amount as nat
        } else {
            0
        },
        None => nomination.amount as nat,
    }
}

/// The sum of the nominations in the list, all of them or only those for
/// one validator.
pub open spec fn nominated_in(list: Seq<Nomination>, only: Option<AccountId>) -> nat
    decreases list.len(),
{
    if list.len() == 0 {
        0
    } else {
        nominated_in(list.drop_last(), only) + counted(list.last(), only)
    }
}

/// The sum of the nominations of the nominators below `bound`.
pub open spec fn nominated_below(
    nominators: Map<AccountId, Seq<Nomination>>,
    only: Option<AccountId>,
    bound: nat,
) -> nat
    decreases bound,
{
    if bound == 0 {
        0
    } else {
        let account = (bound - 1) as nat;
        nominated_below(nominators, only, account) + if account <= u64::MAX
            && nominators.contains_key(account as AccountId) {
            nominated_in(nominators[account as AccountId], only)
        } else {
            0
        }
    }
}

/// The sum of the nominations of all nominators, all of them or only those
/// for one validator.
pub open spec fn total_nominated(
    nominators: Map<AccountId, Seq<Nomination>>,
    only: Option<AccountId>,
) -> nat {
    nominated_below(nominators, only, 0x1_0000_0000_0000_0000)
}

proof fn lemma_nominated_in_push(list: Seq<Nomination>, nomination: Nomination, only: Option<AccountId>)
    ensures
        nominated_in(list.push(nomination), only) == nominated_in(list, only) + counted(
            nomination,
            only,
        ),
{
    assert(list.push(nomination).drop_last() =~= list);
}

proof fn lemma_nominated_in_update(
    list: Seq<Nomination>,
    index: int,
    nomination: Nomination,
    only: Option<AccountId>,
)
    requires
        0 <= index < list.len(),
    ensures
        nominated_in(list.update(index, nomination), only) == nominated_in(list, only) - counted(
            list[index],
            only,
        ) + counted(nomination, only),
    decreases list.len(),
{
    let updated = list.update(index, nomination);
    if index == list.len() - 1 {
        assert(updated.drop_last() =~= list.drop_last());
    } else {
        lemma_nominated_in_update(list.drop_last(), index, nomination, only);
        assert(updated.drop_last() =~= list.drop_last().update(index, nomination));
    }
}

proof fn lemma_nominated_in_swap_removed(list: Seq<Nomination>, index: int, only: Option<AccountId>)
    requires
        0 <= index < list.len(),
    ensures
        nominated_in(swap_removed(list, index), only) == nominated_in(list, only) - counted(
            list[index],
            only,
        ),
{
    lemma_nominated_in_update(list, index, list.last(), only);
}

proof fn lemma_nominated_below_insert(
    nominators: Map<AccountId, Seq<Nomination>>,
    who: AccountId,
    list: Seq<Nomination>,
    only: Option<AccountId>,
    bound: nat,
)
    ensures
        nominated_below(nominators.insert(who, list), only, bound) == nominated_below(
            nominators,
            only,
            bound,
        ) + if who < bound {
            nominated_in(list, only) - if nominators.contains_key(who) {
                nominated_in(nominators[who], only) as int
            } else {
                0
            }
        } else {
            0
        },
    decreases bound,
{
    if bound > 0 {
        lemma_nominated_below_insert(nominators, who, list, only, (bound - 1) as nat);
    }
}

/// What a nomination and a withdrawal do to the sums of the nominations.
proof fn lemma_total_nominated(state: State, call: Call, only: Option<AccountId>)
    ensures
        match call {
            Call::Nominate { origin, validator, amount, free_balance } => total_nominated(
                state.after(call).nominators,
                only,
            ) == total_nominated(state.nominators, only) + if state.nominate_result(
                origin,
                validator,
                amount,
                free_balance,
            ) is Ok {
                counted(Nomination { validator, amount }, only)
            } else {
                0
            },
            Call::WithdrawNomination { origin, validator } => match state.withdraw_nomination_result(
                origin,
                validator,
            ) {
                Ok(Event::NominationWithdrawn(_, _, amount)) => total_nominated(
                    state.after(call).nominators,
                    only,
                ) == total_nominated(state.nominators, only) - counted(
                    Nomination { validator, amount },
                    only,
                ),
                _ => state.after(call).nominators == state.nominators,
            },
            _ => state.after(call).nominators == state.nominators,
        },
{
    let top: nat = 0x1_0000_0000_0000_0000;
    match call {
        Call::Nominate { origin, validator, amount, free_balance } => {
            if state.nominate_result(origin, validator, amount, free_balance) is Ok {
                let who = origin->Signed_0;
                let before = state.nominations_of(who);
                let nomination = Nomination { validator, amount };
                lemma_nominated_in_push(before, nomination, only);
                lemma_nominated_below_insert(state.nominators, who, before.push(nomination), only, top);
            }
        },
        Call::WithdrawNomination { origin, validator } => {
            if state.withdraw_nomination_result(origin, validator) is Ok {
                let who = origin->Signed_0;
                let before = state.nominations_of(who);
                let index = first_nomination(before, validator);
                lemma_has_first_nomination(before, validator);
                lemma_nominated_in_swap_removed(before, index, only);
                lemma_nominated_below_insert(
                    state.nominators,
                    who,
                    swap_removed(before, index),
                    only,
                    top,
                );
                assert(before[index] == Nomination { validator, amount: before[index].amount });
            }
        },
        _ => {},
    }
}

/// Everything that is staked or nominated: the validators' own stakes and
/// all nominations, those that name a validator that has left among them.
pub open spec fn all_stake(state: State) -> nat {
    total_self_stake(state.validators) + total_nominated(state.nominators, None)
}

/// Whether the total staked is the sum of the validators' own stakes and of
/// all nominations.
pub open spec fn total_is_all_stake(state: State) -> bool {
    state.total_staked == all_stake(state)
}

/// Every call keeps the total staked equal to the sum of the validators'
/// own stakes and of all nominations, as long as the sum fits into a
/// `Balance`.
pub proof fn law_total_staked_is_all_stake(state: State, call: Call)
    requires
        total_is_all_stake(state),
        all_stake(state.after(call)) <= Balance::MAX,
    ensures
        total_is_all_stake(state.after(call)),
{
    let top: nat = 0x1_0000_0000_0000_0000;
    lemma_total_nominated(state, call, None);
    match call {
        Call::RegisterValidator { origin, stake, free_balance } => {
            if state.register_validator_result(origin, stake, free_balance) is Ok {
                lemma_stake_below_insert(state.validators, origin->Signed_0, stake, top);
            }
        },
        Call::RemoveValidator { origin } => {
            if state.remove_validator_result(origin) is Ok {
                lemma_stake_below_remove(state.validators, origin->Signed_0, top);
            }
        },
        Call::SlashValidator { origin, validator, slash_percent } => {
            if state.slash_validator_result(origin, validator, slash_percent) is Ok {
                let amount = spec_slash_amount(
                    balance_of(state.validators, validator),
                    slash_percent,
                );
                lemma_stake_below_insert(
                    state.validators,
                    validator,
                    (balance_of(state.validators, validator) - amount) as Balance,
                    top,
                );
                lemma_stake_below_remove(state.validators, validator, top);
            }
        },
        _ => {},
    }
}

/// Through any history that begins with an empty ledger, the total staked
/// is the sum of the validators' own stakes and of all nominations, as long
/// as the sum has fitted into a `Balance` after every call.
pub proof fn law_total_staked_is_all_stake_throughout(config: Config, calls: Seq<Call>)
    requires
        forall|n: int|
            0 <= n <= calls.len() ==> all_stake(
                #[trigger] State::genesis(config).after_all(calls.take(n)),
            ) <= Balance::MAX,
    ensures
        total_is_all_stake(State::genesis(config).after_all(calls)),
    decreases calls.len(),
{
    let genesis = State::genesis(config);
    let top: nat = 0x1_0000_0000_0000_0000;
    if calls.len() == 0 {
        lemma_empty_stakes(top);
        lemma_empty_nominations(None, top);
    } else {
        let earlier = calls.drop_last();
        assert forall|n: int| 0 <= n <= earlier.len() implies all_stake(
            #[trigger] genesis.after_all(earlier.take(n)),
        ) <= Balance::MAX by {
            assert(earlier.take(n) =~= calls.take(n));
        }
        law_total_staked_is_all_stake_throughout(config, earlier);
        assert(calls.take(calls.len() as int) =~= calls);
        assert(all_stake(genesis.after_all(calls.take(calls.len() as int))) <= Balance::MAX);
        law_total_staked_is_all_stake(genesis.after_all(earlier), calls.last());
    }
}

proof fn lemma_empty_nominations(only: Option<AccountId>, bound: nat)
    ensures
        nominated_below(Map::<AccountId, Seq<Nomination>>::empty(), only, bound) == 0,
    decreases bound,
{
    if bound > 0 {
        lemma_empty_nominations(only, (bound - 1) as nat);
    }
}

/// Whether what stands behind the validator is its own stake and the
/// nominations that name it.
pub open spec fn stake_behind_is_accounted(state: State, validator: AccountId) -> bool {
    balance_of(state.total_validator_stake, validator) == balance_of(state.validators, validator)
        + total_nominated(state.nominators, Some(validator))
}

/// A call keeps what stands behind a validator equal to its own stake and
/// the nominations that name it, with these exceptions. A nomination
/// outlives the validator it names: so the equality is lost when a validator
/// leaves, or an account registers, while nominations name it. And a
/// nomination that would take what stands behind the validator beyond what a
/// `Balance` holds is entered in the list and not in the sum.
pub proof fn law_stake_behind_is_own_stake_and_nominations(
    state: State,
    call: Call,
    validator: AccountId,
)
    requires
        stake_behind_is_accounted(state, validator),
        call matches Call::RegisterValidator { origin, .. } ==> origin == Origin::Signed(validator)
            ==> total_nominated(state.nominators, Some(validator)) == 0,
        call matches Call::RemoveValidator { origin } ==> origin == Origin::Signed(validator)
            ==> total_nominated(state.nominators, Some(validator)) == 0,
        call matches Call::Nominate { validator: named, amount, .. } ==> named == validator
            ==> balance_of(state.total_validator_stake, validator) + amount <= Balance::MAX,
    ensures
        stake_behind_is_accounted(state.after(call), validator),
{
    lemma_total_nominated(state, call, Some(validator));
}

/// The sum of the rewards in the list that go to the account.
pub open spec fn rewards_for(rewards: Seq<Reward>, who: AccountId) -> nat
    decreases rewards.len(),
{
    if rewards.len() == 0 {
        0
    } else {
        rewards_for(rewards.drop_last(), who) + if rewards.last().account == who {
            rewards.last().amount as nat
        } else {
            0
        }
    }
}

/// Crediting rewards never lowers what is pending for an account, and
/// raises it by exactly the rewards that go to the account wherever the sum
/// fits into a `Balance`.
pub proof fn law_credits_add_up(
    pending: Map<AccountId, Balance>,
    rewards: Seq<Reward>,
    who: AccountId,
)
    ensures
        balance_of(credit_all(pending, rewards), who) >= balance_of(pending, who),
        balance_of(credit_all(pending, rewards), who) <= balance_of(pending, who) + rewards_for(
            rewards,
            who,
        ),
        balance_of(pending, who) + rewards_for(rewards, who) <= Balance::MAX ==> balance_of(
            credit_all(pending, rewards),
            who,
        ) == balance_of(pending, who) + rewards_for(rewards, who),
    decreases rewards.len(),
{
    if rewards.len() > 0 {
        law_credits_add_up(pending, rewards.drop_last(), who);
    }
}

/// The end of an era never lowers what is pending for an account, and every
/// call but a claim and the end of an era leaves all that is pending as it
/// was.
pub proof fn law_pending_rewards_wait_for_their_claim(state: State, call: Call, who: AccountId)
    ensures
        balance_of(state.after_distribute_rewards().pending_rewards, who) >= balance_of(
            state.pending_rewards,
            who,
        ),
        call is OnInitialize ==> balance_of(state.after(call).pending_rewards, who) >= balance_of(
            state.pending_rewards,
            who,
        ),
        !(call is OnInitialize) && !(call is ClaimRewards) ==> state.after(call).pending_rewards
            == state.pending_rewards,
        call matches Call::ClaimRewards { origin } ==> state.after(call).pending_rewards == (
        if state.claim_rewards_result(origin) is Ok {
            state.pending_rewards.remove(origin->Signed_0)
        } else {
            state.pending_rewards
        }),
{
    law_credits_add_up(state.pending_rewards, state.era_rewards(), who);
    match call {
        Call::OnInitialize { n } => {
            if state.era_ends_at(n) {
                state.lemma_era_rewards_depend_on_stakes(state.next_era(n));
                law_credits_add_up(state.pending_rewards, state.next_era(n).era_rewards(), who);
            }
        },
        _ => {},
    }
}

/// Whether what stands behind each validator is at least its own stake.
pub open spec fn stake_behind_covers_own_stake(state: State) -> bool {
    forall|validator: AccountId|
        balance_of(state.total_validator_stake, validator) >= balance_of(
            state.validators,
            validator,
        )
}

/// Every call keeps what stands behind each validator at or above the
/// validator's own stake, with one exception. A nomination outlives the
/// validator it names: when the validator leaves and registers again, what
/// stands behind it begins anew at its own stake, and a withdrawal of the old
/// nomination then takes away what was never added. So a withdrawal keeps
/// the property only where what stands behind the validator holds the
/// validator's own stake and the nomination besides.
pub proof fn law_stake_behind_covers_own_stake(state: State, call: Call)
    requires
        stake_behind_covers_own_stake(state),
        call matches Call::WithdrawNomination { origin, validator } ==> (
        state.withdraw_nomination_result(origin, validator) matches Ok(
            Event::NominationWithdrawn(_, _, amount),
        ) ==> balance_of(state.total_validator_stake, validator) >= balance_of(
            state.validators,
            validator,
        ) + amount),
    ensures
        stake_behind_covers_own_stake(state.after(call)),
{
    let next = state.after(call);
    assert forall|v: AccountId|
        balance_of(next.total_validator_stake, v) >= balance_of(next.validators, v) by {
        assert(balance_of(state.total_validator_stake, v) >= balance_of(state.validators, v));
    }
}

/// Whether the validator count is the number of registered validators.
pub open spec fn count_is_number_of_validators(state: State) -> bool {
    &&& state.validators.dom().finite()
    &&& state.validator_count == state.validators.dom().len()
}

/// Every call keeps the validator count equal to the number of registered
/// validators, as long as that number fits into the count.
pub proof fn law_validator_count_is_number_of_validators(state: State, call: Call)
    requires
        count_is_number_of_validators(state),
        state.after(call).validators.dom().len() <= u32::MAX,
    ensures
        count_is_number_of_validators(state.after(call)),
{
    let next = state.after(call);
    match call {
        Call::RegisterValidator { origin, stake, free_balance } => {
            if state.register_validator_result(origin, stake, free_balance) is Ok {
                assert(next.validators.dom() =~= state.validators.dom().insert(origin->Signed_0));
            }
        },
        Call::RemoveValidator { origin } => {
            if state.remove_validator_result(origin) is Ok {
                assert(next.validators.dom() =~= state.validators.dom().remove(origin->Signed_0));
            }
        },
        Call::SlashValidator { origin, validator, slash_percent } => {
            if state.slash_validator_result(origin, validator, slash_percent) is Ok {
                assert(next.validators.dom() =~= state.validators.dom());
            }
        },
        _ => {},
    }
}

} // verus!
