//! The sum of the balances that a ledger holds, and what follows from its
//! definition.

use vstd::prelude::*;
use crate::address::Address;

verus! {

/// The sum of the values of a finite map of balances.
pub open spec fn sum_of(balances: Map<Address, int>) -> int
    decreases balances.dom().len(),
    when balances.dom().finite()
{
    if balances.dom().len() == 0 {
        0
    } else {
        let owner = balances.dom().choose();
        balances[owner] + sum_of(balances.remove(owner))
    }
}

/// Whether no balance of the map is below zero.
pub open spec fn non_negative(balances: Map<Address, int>) -> bool {
    forall|a: Address| balances.dom().contains(a) ==> #[trigger] balances[a] >= 0
}

/// The balance that a map attributes to an owner: an owner without a record
/// holds nothing.
pub open spec fn balance_in(balances: Map<Address, int>, owner: Address) -> int {
    if balances.dom().contains(owner) {
        balances[owner]
    } else {
        0
    }
}

/// The empty map sums to zero.
pub proof fn lemma_sum_empty()
    ensures
        sum_of(Map::<Address, int>::empty()) == 0,
{
    assert(Map::<Address, int>::empty().dom().len() == 0);
}

/// Any one record can be taken out of the sum first.
pub proof fn lemma_sum_remove(balances: Map<Address, int>, owner: Address)
    requires
        balances.dom().finite(),
        balances.dom().contains(owner),
    ensures
        sum_of(balances) == balances[owner] + sum_of(balances.remove(owner)),
    decreases balances.dom().len(),
{
    let first = balances.dom().choose();
    if balances.dom().len() == 0 {
        assert(false);
    } else if first != owner {
        let without_first = balances.remove(first);
        let without_owner = balances.remove(owner);
        lemma_sum_remove(without_first, owner);
        lemma_sum_remove(without_owner, first);
        assert(without_first.remove(owner) =~= without_owner.remove(first));
    }
}

/// Writing a record changes the sum by the difference between the new
/// balance and the old one.
pub proof fn lemma_sum_insert(balances: Map<Address, int>, owner: Address, amount: int)
    requires
        balances.dom().finite(),
    ensures
        sum_of(balances.insert(owner, amount)) == sum_of(balances) - balance_in(balances, owner)
            + amount,
{
    let after = balances.insert(owner, amount);
    lemma_sum_remove(after, owner);
    if balances.dom().contains(owner) {
        lemma_sum_remove(balances, owner);
        assert(after.remove(owner) =~= balances.remove(owner));
    } else {
        assert(after.remove(owner) =~= balances);
    }
}

/// A sum of balances that are not negative is not negative.
pub proof fn lemma_sum_non_negative(balances: Map<Address, int>)
    requires
        balances.dom().finite(),
        non_negative(balances),
    ensures
        sum_of(balances) >= 0,
    decreases balances.dom().len(),
{
    if balances.dom().len() != 0 {
        let owner = balances.dom().choose();
        lemma_sum_non_negative(balances.remove(owner));
    }
}

/// Where no balance is negative, no owner holds more than the sum.
pub proof fn lemma_balance_at_most_sum(balances: Map<Address, int>, owner: Address)
    requires
        balances.dom().finite(),
        non_negative(balances),
    ensures
        0 <= balance_in(balances, owner) <= sum_of(balances),
{
    if balances.dom().contains(owner) {
        lemma_sum_remove(balances, owner);
        lemma_sum_non_negative(balances.remove(owner));
    } else {
        lemma_sum_non_negative(balances);
    }
}

/// Where no balance is negative, no two owners together hold more than the
/// sum.
pub proof fn lemma_two_balances_at_most_sum(
    balances: Map<Address, int>,
    first: Address,
    second: Address,
)
    requires
        balances.dom().finite(),
        non_negative(balances),
        first != second,
    ensures
        balance_in(balances, first) + balance_in(balances, second) <= sum_of(balances),
{
    if balances.dom().contains(first) {
        let rest = balances.remove(first);
        lemma_sum_remove(balances, first);
        lemma_balance_at_most_sum(rest, second);
    } else {
        lemma_balance_at_most_sum(balances, second);
    }
}

} // verus!
