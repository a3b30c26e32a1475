//! The bounded list that holds one nominator's nominations.
//!
//! The list is a `BoundedVec` of the `bounded_collections` crate. Verus does
//! not look inside it: what the list holds is named by
//! [`nomination_entries`], and the five functions that call into the outside
//! crate (`list_new`, `list_len`, `list_get`, `list_try_push`,
//! `list_swap_remove`) are believed on the strength of its source, not
//! proved. Everything else in this module is proved from what those five
//! promise.

use vstd::prelude::*;
use bounded_collections::BoundedVec;
use bounded_collections::ConstU32;
use crate::model::{distinct_validators, has_nomination, is_first_nomination};
use crate::types::{AccountId, Nomination};

verus! {

/// `bounded_collections::BoundedVec`, opaque to the verifier.
#[verifier::external_type_specification]
#[verifier::external_body]
#[verifier::reject_recursive_types(T)]
#[verifier::reject_recursive_types(S)]
pub struct ExBoundedVec<T, S>(BoundedVec<T, S>);

/// `bounded_collections::ConstU32`, the type-level bound of a `BoundedVec`.
#[verifier::external_type_specification]
#[verifier::external_body]
pub struct ExConstU32<const T: u32>(ConstU32<T>);

/// The bound of the list type: the list never holds more entries than this.
/// No configured maximum is above it, so the type admits every list that a
/// ledger may come to hold, and each ledger keeps its lists within its own
/// maximum.
pub const LIST_CAPACITY: u32 = 4294967295;

/// One nominator's nominations.
pub type NominationList = BoundedVec<Nomination, ConstU32<LIST_CAPACITY>>;

/// The entries of a list, first to last.
pub uninterp spec fn nomination_entries(list: NominationList) -> Seq<Nomination>;

/// `BoundedVec::new`: a list without entries.
#[verifier::external_body]
pub(crate) fn list_new() -> (list: NominationList)
    ensures
        nomination_entries(list) == Seq::<Nomination>::empty(),
{
    BoundedVec::new()
}

/// `Vec::len`, reached through `BoundedVec`'s `Deref`: the number of entries.
#[verifier::external_body]
pub(crate) fn list_len(list: &NominationList) -> (n: usize)
    ensures
        n == nomination_entries(*list).len(),
{
    list.len()
}

/// `BoundedVec`'s `Index`: the entry at `index`. The outside call panics
/// when `index` is not below the length.
#[verifier::external_body]
pub(crate) fn list_get(list: &NominationList, index: usize) -> (entry: Nomination)
    requires
        index < nomination_entries(*list).len(),
    ensures
        entry == nomination_entries(*list)[index as int],
{
    list[index]
}

/// `BoundedVec::try_push`: appends `entry` when the list holds fewer entries
/// than the bound of its type, and otherwise leaves the list as it was and
/// hands the entry back.
#[verifier::external_body]
pub(crate) fn list_try_push(list: &mut NominationList, entry: Nomination) -> (res: Result<
    (),
    Nomination,
>)
    ensures
        match res {
            Ok(_) => nomination_entries(*final(list)) == nomination_entries(*old(list)).push(entry)
                && nomination_entries(*old(list)).len() < LIST_CAPACITY,
            Err(back) => nomination_entries(*final(list)) == nomination_entries(*old(list))
                && nomination_entries(*old(list)).len() >= LIST_CAPACITY && back == entry,
        },
{
    list.try_push(entry)
}

/// `BoundedVec::swap_remove`: takes the entry at `index` out and moves the
/// last entry into its place. The outside call panics when `index` is not
/// below the length.
#[verifier::external_body]
pub(crate) fn list_swap_remove(list: &mut NominationList, index: usize) -> (entry: Nomination)
    requires
        index < nomination_entries(*old(list)).len(),
    ensures
        entry == nomination_entries(*old(list))[index as int],
        nomination_entries(*final(list)) == swap_removed(
            nomination_entries(*old(list)),
            index as int,
        ),
{
    list.swap_remove(index)
}

/// A sequence after the entry at `index` was taken out and the last entry
/// moved into its place.
pub open spec fn swap_removed(s: Seq<Nomination>, index: int) -> Seq<Nomination>
    recommends
        0 <= index < s.len(),
{
    s.update(index, s.last()).drop_last()
}

/// The first place at which the list names the validator, if it names it.
pub fn find_nomination(list: &NominationList, validator: AccountId) -> (position: Option<usize>)
    ensures
        match position {
            Some(index) => is_first_nomination(nomination_entries(*list), validator, index as int),
            None => !has_nomination(nomination_entries(*list), validator),
        },
{
    let n = list_len(list);
    let mut index: usize = 0;
    while index < n
        invariant
            n == nomination_entries(*list).len(),
            index <= n,
            forall|j: int| 0 <= j < index ==> nomination_entries(*list)[j].validator != validator,
        decreases n - index,
    {
        if list_get(list, index).validator == validator {
            return Some(index);
        }
        index += 1;
    }
    None
}

/// The entries of the list, first to last.
pub fn list_to_vec(list: &NominationList) -> (entries: Vec<Nomination>)
    ensures
        entries@ == nomination_entries(*list),
{
    let n = list_len(list);
    let mut entries: Vec<Nomination> = Vec::new();
    let mut index: usize = 0;
    while index < n
        invariant
            n == nomination_entries(*list).len(),
            index <= n,
            entries@ == nomination_entries(*list).take(index as int),
        decreases n - index,
    {
        entries.push(list_get(list, index));
        proof {
            assert(nomination_entries(*list).take(index + 1) =~= nomination_entries(*list).take(
                index as int,
            ).push(nomination_entries(*list)[index as int]));
        }
        index += 1;
    }
    proof {
        assert(nomination_entries(*list).take(n as int) =~= nomination_entries(*list));
    }
    entries
}

/// A list that names no validator twice still names none twice after a
/// nomination for a validator that it does not name was appended.
pub proof fn lemma_push_distinct(list: Seq<Nomination>, nomination: Nomination)
    requires
        distinct_validators(list),
        !has_nomination(list, nomination.validator),
    ensures
        distinct_validators(list.push(nomination)),
{
    let after = list.push(nomination);
    assert forall|i: int, j: int| 0 <= i < j < after.len() implies after[i].validator
        != after[j].validator by {
        if j < list.len() {
            assert(list[i].validator != list[j].validator);
        } else {
            assert(after[i] == list[i]);
        }
    }
}

/// A list that names no validator twice still names none twice after an
/// entry was taken out and the last entry moved into its place.
pub proof fn lemma_swap_removed_distinct(list: Seq<Nomination>, index: int)
    requires
        0 <= index < list.len(),
        distinct_validators(list),
    ensures
        distinct_validators(swap_removed(list, index)),
        swap_removed(list, index).len() == list.len() - 1,
{
    let after = swap_removed(list, index);
    assert forall|i: int, j: int| 0 <= i < j < after.len() implies after[i].validator
        != after[j].validator by {
        let a = if i == index { list.len() - 1 } else { i };
        let b = if j == index { list.len() - 1 } else { j };
        assert(after[i] == list[a] && after[j] == list[b]);
        if a < b {
            assert(list[a].validator != list[b].validator);
        } else {
            assert(list[b].validator != list[a].validator);
        }
    }
}

} // verus!
