//! What holds of the operations of the ledger whatever is asked of it.
//!
//! The laws that tie the totals of the ledger to the stakes and nominations
//! they sum up are in [`crate::accounting`].

use vstd::prelude::*;
use crate::model::{
    balance_of, first_nomination, has_nomination, is_first_nomination, lemma_first_nomination,
    lemma_has_first_nomination, Call, State,
};
use crate::nomination_list::{lemma_push_distinct, lemma_swap_removed_distinct};
use crate::types::{AccountId, Balance, BlockNumber, Config, Error, Event, Nomination, Origin};

verus! {

/// A nomination that is withdrawn again leaves what stands behind the
/// validator, and the total staked, as they were before the nomination.
///
/// This is stated for the nominations that the two amounts had room for. A
/// sum that does not fit is not formed, so the withdrawal that follows
/// lowers an amount that the nomination has not raised; unless the amount is
/// below the nomination, in which case the withdrawal leaves it alone too.
pub proof fn law_withdrawal_undoes_nomination(
    state: State,
    origin: Origin,
    validator: AccountId,
    amount: Balance,
    free_balance: Balance,
)
    requires
        state.nominate_result(origin, validator, amount, free_balance) is Ok,
        balance_of(state.total_validator_stake, validator) + amount <= Balance::MAX || balance_of(
            state.total_validator_stake,
            validator,
        ) < amount,
        state.total_staked + amount <= Balance::MAX || state.total_staked < amount,
    ensures
        ({
            let nominated = state.after_nominate(origin, validator, amount, free_balance);
            let withdrawn = nominated.after_withdraw_nomination(origin, validator);
            &&& nominated.withdraw_nomination_result(origin, validator) == Ok::<Event, Error>(
                Event::NominationWithdrawn(origin->Signed_0, validator, amount),
            )
            &&& balance_of(withdrawn.total_validator_stake, validator) == balance_of(
                state.total_validator_stake,
                validator,
            )
            &&& withdrawn.total_staked == state.total_staked
            &&& withdrawn.nominations_of(origin->Signed_0) == state.nominations_of(origin->Signed_0)
        }),
{
    let who = origin->Signed_0;
    let nominated = state.after_nominate(origin, validator, amount, free_balance);
    let before = state.nominations_of(who);
    let list = nominated.nominations_of(who);
    let last = before.len() as int;
    assert(list == before.push(Nomination { validator, amount }));
    assert(is_first_nomination(list, validator, last)) by {
        assert forall|j: int| 0 <= j < last implies list[j].validator != validator by {
            assert(list[j] == before[j]);
        }
    }
    lemma_first_nomination(list, validator, last);
    assert(list.update(last, list.last()).drop_last() =~= before);
}

/// A stake below the minimum is refused as such, whatever the free balance
/// of the account, and changes nothing. (An account that is registered
/// already is told so instead, and an origin that nobody has signed is a
/// bad origin.)
pub proof fn law_stake_below_minimum_is_refused(
    state: State,
    who: AccountId,
    stake: Balance,
    free_balance: Balance,
)
    requires
        !state.validators.contains_key(who),
        stake < state.config.min_stake,
    ensures
        state.register_validator_result(Origin::Signed(who), stake, free_balance) == Err::<
            Event,
            Error,
        >(Error::StakeBelowMinimum),
        state.after_register_validator(Origin::Signed(who), stake, free_balance) == state,
{
}

/// A block that is begun a second time changes nothing: the era that began
/// at the block is not over at the block. Whatever the block, the era
/// number goes up by one at most.
pub proof fn law_block_begun_twice_changes_nothing(state: State, n: BlockNumber)
    ensures
        !state.after_on_initialize(n).era_ends_at(n),
        state.after_on_initialize(n).after_on_initialize(n) == state.after_on_initialize(n),
        state.current_era <= state.after_on_initialize(n).current_era <= state.current_era + 1,
        !state.era_ends_at(n) ==> state.after_on_initialize(n) == state,
{
}

/// Every call keeps the configuration and the invariant of the ledger: no
/// nominator holds more nominations than the configured maximum, and none
/// names a validator twice.
pub proof fn law_every_call_keeps_invariant(state: State, call: Call)
    requires
        state.inv(),
    ensures
        state.after(call).inv(),
        state.after(call).config == state.config,
{
    let next = state.after(call);
    match call {
        Call::Nominate { origin, validator, amount, free_balance } => {
            if state.nominate_result(origin, validator, amount, free_balance) is Ok {
                let who = origin->Signed_0;
                let before = state.nominations_of(who);
                let list = before.push(Nomination { validator, amount });
                lemma_push_distinct(before, Nomination { validator, amount });
                assert(next.nominators[who] == list);
            }
        },
        Call::WithdrawNomination { origin, validator } => {
            if state.withdraw_nomination_result(origin, validator) is Ok {
                let who = origin->Signed_0;
                let before = state.nominations_of(who);
                lemma_has_first_nomination(before, validator);
                lemma_swap_removed_distinct(before, first_nomination(before, validator));
            }
        },
        _ => {},
    }
}

/// Through any history that begins with an empty ledger, no nominator ever
/// holds more nominations than the configured maximum, and none names a
/// validator twice.
pub proof fn law_nominations_stay_bounded(config: Config, calls: Seq<Call>, who: AccountId)
    ensures
        State::genesis(config).after_all(calls).inv(),
        State::genesis(config).after_all(calls).config == config,
        State::genesis(config).after_all(calls).nominations_of(who).len() <= config.max_nominations,
    decreases calls.len(),
{
    if calls.len() > 0 {
        law_nominations_stay_bounded(config, calls.drop_last(), who);
        law_every_call_keeps_invariant(
            State::genesis(config).after_all(calls.drop_last()),
            calls.last(),
        );
    }
}

/// A nominator that holds the configured maximum of nominations cannot make
/// another: the call is refused and changes nothing. The refusal names the
/// maximum whenever nothing else is wrong with the call, that is, when the
/// validator is registered, the amount reaches the minimum, the free balance
/// covers it, and the nominator has not named the validator yet.
pub proof fn law_full_list_refuses_nomination(
    state: State,
    who: AccountId,
    validator: AccountId,
    amount: Balance,
    free_balance: Balance,
)
    requires
        state.nominations_of(who).len() >= state.config.max_nominations,
    ensures
        state.nominate_result(Origin::Signed(who), validator, amount, free_balance) is Err,
        state.after_nominate(Origin::Signed(who), validator, amount, free_balance) == state,
        state.validators.contains_key(validator) && amount >= state.config.min_nomination
            && free_balance >= amount && !has_nomination(state.nominations_of(who), validator)
            ==> state.nominate_result(Origin::Signed(who), validator, amount, free_balance) == Err::<
            Event,
            Error,
        >(Error::MaxNominationsReached),
{
}

} // verus!
