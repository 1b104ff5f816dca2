//! What holds of the ledger whatever is asked of it.

use vstd::prelude::*;
use crate::address::Address;
use crate::error::Error;
use crate::event::Event;
use crate::key::DataKey;
use crate::model::{Invocation, Ledger, Operation};
use crate::sum::{
    lemma_balance_at_most_sum, lemma_sum_empty, lemma_sum_insert, lemma_sum_non_negative,
    non_negative, sum_of,
};

verus! {

/// The ledger before initialization satisfies the invariant.
pub proof fn lemma_fresh_is_valid()
    ensures
        Ledger::fresh().inv(),
{
    lemma_sum_empty();
}

/// A credit, or a debit that the balance covers, keeps the records finite
/// and free of debt, changes their sum by its amount, and touches no other
/// owner.
pub proof fn lemma_credit(ledger: Ledger, owner: Address, amount: int)
    requires
        ledger.balances.dom().finite(),
        non_negative(ledger.balances),
        ledger.balance(owner) + amount >= 0,
    ensures
        ledger.credit(owner, amount).balances.dom().finite(),
        non_negative(ledger.credit(owner, amount).balances),
        sum_of(ledger.credit(owner, amount).balances) == sum_of(ledger.balances) + amount,
        ledger.credit(owner, amount).balance(owner) == ledger.balance(owner) + amount,
        forall|other: Address|
            other != owner ==> #[trigger] ledger.credit(owner, amount).balance(other)
                == ledger.balance(other),
{
    lemma_sum_insert(ledger.balances, owner, ledger.balance(owner) + amount);
}

/// An invocation on a ledger that satisfies the invariant leaves a ledger
/// that satisfies it, whether it succeeds or fails. So the total supply
/// stays the sum of all balances, and neither it nor a balance falls below
/// zero.
pub proof fn lemma_step_keeps_invariant(ledger: Ledger, invocation: Invocation)
    requires
        ledger.inv(),
    ensures
        ledger.after(invocation).inv(),
        ledger.after(invocation).total_supply >= 0,
{
    let next = ledger.after(invocation);
    lemma_sum_non_negative(ledger.balances);
    if ledger.step(invocation) is Ok {
        match invocation.operation {
            Operation::Initialize { .. } => {
                lemma_sum_empty();
            },
            Operation::SetMinter { .. } => {},
            Operation::Mint { to, amount } => {
                lemma_balance_at_most_sum(ledger.balances, to);
                lemma_credit(ledger, to, amount);
                assert(next.balances.dom().contains(to));
            },
            Operation::Transfer { from, to, amount } => {
                let debited = ledger.debit(from, amount);
                assert(ledger.balances.dom().contains(from));
                lemma_credit(ledger, from, -amount);
                lemma_credit(debited, to, amount);
                assert(next.balances.dom().contains(to));
            },
            Operation::Burn { from, amount } => {
                assert(ledger.balances.dom().contains(from));
                lemma_credit(ledger, from, -amount);
                assert(next.balances.dom().contains(from));
            },
        }
    }
    lemma_sum_non_negative(next.balances);
}

/// After every step of every sequence of invocations on a ledger that
/// satisfies the invariant, the total supply is the sum of all balances, and
/// neither it nor a balance is below zero.
pub proof fn lemma_conservation(ledger: Ledger, invocations: Seq<Invocation>)
    requires
        ledger.inv(),
    ensures
        forall|n: int|
            0 <= n <= invocations.len() ==> {
                let reached = #[trigger] ledger.after_all(invocations.take(n));
                &&& reached.inv()
                &&& reached.total_supply == sum_of(reached.balances)
                &&& reached.total_supply >= 0
                &&& non_negative(reached.balances)
            },
{
    assert forall|n: int| 0 <= n <= invocations.len() implies {
        let reached = #[trigger] ledger.after_all(invocations.take(n));
        &&& reached.inv()
        &&& reached.total_supply == sum_of(reached.balances)
        &&& reached.total_supply >= 0
        &&& non_negative(reached.balances)
    } by {
        lemma_run_keeps_invariant(ledger, invocations.take(n));
    }
}

/// A sequence of invocations on a ledger that satisfies the invariant
/// leaves a ledger that satisfies it.
pub proof fn lemma_run_keeps_invariant(ledger: Ledger, invocations: Seq<Invocation>)
    requires
        ledger.inv(),
    ensures
        ledger.after_all(invocations).inv(),
        ledger.after_all(invocations).total_supply >= 0,
    decreases invocations.len(),
{
    if invocations.len() == 0 {
        lemma_sum_non_negative(ledger.balances);
    } else {
        lemma_run_keeps_invariant(ledger, invocations.drop_last());
        lemma_step_keeps_invariant(
            ledger.after_all(invocations.drop_last()),
            invocations.last(),
        );
    }
}

/// Whatever is asked of a ledger from before its initialization on, and in
/// whatever order, the ledger that is reached satisfies the invariant.
pub proof fn lemma_reachable_is_valid(invocations: Seq<Invocation>)
    ensures
        Ledger::fresh().after_all(invocations).inv(),
        Ledger::fresh().after_all(invocations).total_supply >= 0,
{
    lemma_fresh_is_valid();
    lemma_run_keeps_invariant(Ledger::fresh(), invocations);
}

/// A debit of more than the owner holds, by transfer or by burn, fails with
/// `InsufficientBalance` and leaves the ledger as it was.
pub proof fn lemma_overdraft_fails(
    ledger: Ledger,
    authorized: Set<Address>,
    from: Address,
    to: Address,
    amount: int,
)
    requires
        authorized.contains(from),
        amount > 0,
        ledger.balance(from) < amount,
    ensures
        ledger.transfer(authorized, from, to, amount) == Err::<(Ledger, Event), Error>(
            Error::InsufficientBalance,
        ),
        ledger.burn(authorized, from, amount) == Err::<(Ledger, Event), Error>(
            Error::InsufficientBalance,
        ),
        ledger.after(
            Invocation { authorized, operation: Operation::Transfer { from, to, amount } },
        ) == ledger,
        ledger.after(Invocation { authorized, operation: Operation::Burn { from, amount } })
            == ledger,
{
}

/// Initialization happens once: on the ledger that an initialization has
/// left, every further one fails with `AlreadyInitialized`, whoever
/// authorizes it and whatever its arguments, and leaves the ledger as it
/// was.
pub proof fn lemma_initialize_once(
    ledger: Ledger,
    first: Invocation,
    second: Invocation,
)
    requires
        first.operation is Initialize,
        second.operation is Initialize,
        ledger.step(first) is Ok,
    ensures
        ledger.after(first).step(second) == Err::<(Ledger, Event), Error>(
            Error::AlreadyInitialized,
        ),
        ledger.after(first).after(second) == ledger.after(first),
{
}

/// Initialization stays: no sequence of invocations on an initialized
/// ledger makes a further initialization succeed.
pub proof fn lemma_initialized_for_good(
    ledger: Ledger,
    invocations: Seq<Invocation>,
    again: Invocation,
)
    requires
        ledger.metadata is Some,
        again.operation is Initialize,
    ensures
        ledger.after_all(invocations).metadata == ledger.metadata,
        ledger.after_all(invocations).step(again) == Err::<(Ledger, Event), Error>(
            Error::AlreadyInitialized,
        ),
    decreases invocations.len(),
{
    if invocations.len() > 0 {
        lemma_initialized_for_good(ledger, invocations.drop_last(), again);
    }
}

/// On an initialized ledger without a minter, an issuance of a positive
/// amount succeeds if the admin has authorized it, and fails with
/// `Unauthorized` if not.
pub proof fn lemma_admin_issues_without_minter(
    ledger: Ledger,
    authorized: Set<Address>,
    to: Address,
    amount: int,
)
    requires
        ledger.metadata is Some,
        ledger.minter is None,
        amount > 0,
    ensures
        authorized.contains(ledger.metadata->Some_0.admin) ==> ledger.mint(authorized, to, amount)
            is Ok,
        !authorized.contains(ledger.metadata->Some_0.admin) ==> ledger.mint(
            authorized,
            to,
            amount,
        ) == Err::<(Ledger, Event), Error>(Error::Unauthorized),
{
}

/// Once `set_minter` has named a minter, an issuance of a positive amount
/// succeeds if the minter has authorized it, and fails with `Unauthorized`
/// if not; so the authorization of an admin who is not the minter no longer
/// suffices.
pub proof fn lemma_minter_replaces_admin(
    ledger: Ledger,
    admin_authorized: Set<Address>,
    minter: Address,
    authorized: Set<Address>,
    to: Address,
    amount: int,
)
    requires
        ledger.set_minter(admin_authorized, minter) is Ok,
        amount > 0,
    ensures
        ({
            let named = ledger.set_minter(admin_authorized, minter)->Ok_0.0;
            let admin = ledger.metadata->Some_0.admin;
            &&& ledger.metadata is Some
            &&& admin_authorized.contains(admin)
            &&& named.minter == Some(minter)
            &&& authorized.contains(minter) ==> named.mint(authorized, to, amount) is Ok
            &&& !authorized.contains(minter) ==> named.mint(authorized, to, amount) == Err::<
                (Ledger, Event),
                Error,
            >(Error::Unauthorized)
            &&& admin != minter ==> named.mint(Set::empty().insert(admin), to, amount) == Err::<
                (Ledger, Event),
                Error,
            >(Error::Unauthorized)
        }),
{
}

/// An issuance of zero or less fails with `InvalidAmount`, and so does a
/// transfer or a burn of zero or less that its owner has authorized,
/// whatever the balances. One that its owner has not authorized fails with
/// `Unauthorized`, as it does with any amount.
pub proof fn lemma_amount_must_be_positive(
    ledger: Ledger,
    authorized: Set<Address>,
    from: Address,
    to: Address,
    amount: int,
)
    requires
        amount <= 0,
    ensures
        ledger.mint(authorized, to, amount) == Err::<(Ledger, Event), Error>(Error::InvalidAmount),
        authorized.contains(from) ==> ledger.transfer(authorized, from, to, amount) == Err::<
            (Ledger, Event),
            Error,
        >(Error::InvalidAmount),
        authorized.contains(from) ==> ledger.burn(authorized, from, amount) == Err::<
            (Ledger, Event),
            Error,
        >(Error::InvalidAmount),
        !authorized.contains(from) ==> ledger.transfer(authorized, from, to, amount) == Err::<
            (Ledger, Event),
            Error,
        >(Error::Unauthorized),
        !authorized.contains(from) ==> ledger.burn(authorized, from, amount) == Err::<
            (Ledger, Event),
            Error,
        >(Error::Unauthorized),
{
}

/// An issuance that succeeds adds its amount to what the recipient holds and
/// to the total supply, and changes nothing else.
pub proof fn lemma_mint_effect(ledger: Ledger, authorized: Set<Address>, to: Address, amount: int)
    requires
        ledger.mint(authorized, to, amount) is Ok,
    ensures
        ({
            let next = ledger.mint(authorized, to, amount)->Ok_0.0;
            &&& amount > 0
            &&& next.balance(to) == ledger.balance(to) + amount
            &&& next.total_supply == ledger.total_supply + amount
            &&& forall|other: Address|
                other != to ==> #[trigger] next.balance(other) == ledger.balance(other)
            &&& next.metadata == ledger.metadata
            &&& next.minter == ledger.minter
        }),
{
}

/// A transfer that succeeds takes its amount from what the sender holds and
/// adds it to what the recipient holds; between two records of one owner
/// that is no change. The total supply and all else stay.
pub proof fn lemma_transfer_effect(
    ledger: Ledger,
    authorized: Set<Address>,
    from: Address,
    to: Address,
    amount: int,
)
    requires
        ledger.transfer(authorized, from, to, amount) is Ok,
    ensures
        ({
            let next = ledger.transfer(authorized, from, to, amount)->Ok_0.0;
            &&& 0 < amount <= ledger.balance(from)
            &&& from != to ==> next.balance(from) == ledger.balance(from) - amount
            &&& from != to ==> next.balance(to) == ledger.balance(to) + amount
            &&& from == to ==> next.balance(from) == ledger.balance(from)
            &&& forall|other: Address|
                other != from && other != to ==> #[trigger] next.balance(other) == ledger.balance(
                    other,
                )
            &&& next.total_supply == ledger.total_supply
            &&& next.metadata == ledger.metadata
            &&& next.minter == ledger.minter
        }),
{
}

/// A burn that succeeds takes its amount from what the owner holds and from
/// the total supply, and changes nothing else.
pub proof fn lemma_burn_effect(ledger: Ledger, authorized: Set<Address>, from: Address, amount: int)
    requires
        ledger.burn(authorized, from, amount) is Ok,
    ensures
        ({
            let next = ledger.burn(authorized, from, amount)->Ok_0.0;
            &&& 0 < amount <= ledger.balance(from)
            &&& next.balance(from) == ledger.balance(from) - amount
            &&& next.total_supply == ledger.total_supply - amount
            &&& forall|other: Address|
                other != from ==> #[trigger] next.balance(other) == ledger.balance(other)
            &&& next.metadata == ledger.metadata
            &&& next.minter == ledger.minter
        }),
{
}

/// A record that the ledger keeps is kept after every invocation, and no
/// invocation writes an allowance.
pub proof fn lemma_records_stay(ledger: Ledger, invocation: Invocation, key: DataKey)
    ensures
        ledger.has(key) ==> ledger.after(invocation).has(key),
        key is Allowance ==> !ledger.after(invocation).has(key),
{
}

} // verus!
