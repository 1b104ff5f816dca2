//! The balance records of a ledger: one record per owner, none below zero.

use vstd::prelude::*;
use crate::address::Address;
use crate::sum::{balance_in, lemma_sum_empty, lemma_sum_insert, non_negative, sum_of};

verus! {

/// One balance record.
#[derive(Clone, Copy, Debug, PartialEq, Eq, Structural, Hash)]
pub struct Account {
    pub owner: Address,
    pub amount: i128,
}

/// Whether a list of records names `owner`.
pub open spec fn listed(accounts: Seq<Account>, owner: Address) -> bool {
    exists|i: int| 0 <= i < accounts.len() && (#[trigger] accounts[i]).owner == owner
}

/// Whether no owner has two records in the list.
pub open spec fn distinct_owners(accounts: Seq<Account>) -> bool {
    forall|i: int, j: int|
        0 <= i < j < accounts.len() ==> (#[trigger] accounts[i]).owner != (
        #[trigger] accounts[j]).owner
}

/// Whether no record of the list is below zero.
pub open spec fn no_debt(accounts: Seq<Account>) -> bool {
    forall|i: int| 0 <= i < accounts.len() ==> (#[trigger] accounts[i]).amount >= 0
}

/// The balances that a list of records stands for. Of two records of one
/// owner the later counts.
pub open spec fn records(accounts: Seq<Account>) -> Map<Address, int>
    decreases accounts.len(),
{
    if accounts.len() == 0 {
        Map::empty()
    } else {
        records(accounts.drop_last()).insert(
            accounts.last().owner,
            accounts.last().amount as int,
        )
    }
}

/// The owners with a balance are those that the list names, and they are
/// finitely many.
pub proof fn lemma_records_dom(accounts: Seq<Account>)
    ensures
        records(accounts).dom().finite(),
        forall|a: Address| records(accounts).dom().contains(a) <==> listed(accounts, a),
    decreases accounts.len(),
{
    if accounts.len() > 0 {
        let front = accounts.drop_last();
        let last = accounts.last();
        lemma_records_dom(front);
        assert forall|a: Address| records(accounts).dom().contains(a) <==> listed(
            accounts,
            a,
        ) by {
            if listed(accounts, a) {
                let i = choose|i: int| 0 <= i < accounts.len() && (#[trigger] accounts[i]).owner
                    == a;
                if i < front.len() {
                    assert(front[i].owner == a);
                }
            }
            if listed(front, a) {
                let i = choose|i: int| 0 <= i < front.len() && (#[trigger] front[i]).owner == a;
                assert(accounts[i].owner == a);
            }
            if a == last.owner {
                assert(accounts[accounts.len() - 1].owner == a);
            }
        }
    }
}

/// Where no owner has two records, each record is the balance of its owner.
pub proof fn lemma_records_value(accounts: Seq<Account>, i: int)
    requires
        distinct_owners(accounts),
        0 <= i < accounts.len(),
    ensures
        records(accounts).dom().contains(accounts[i].owner),
        records(accounts)[accounts[i].owner] == accounts[i].amount,
    decreases accounts.len(),
{
    if i < accounts.len() - 1 {
        let front = accounts.drop_last();
        assert(front[i] == accounts[i]);
        assert(accounts[i].owner != accounts[accounts.len() - 1].owner);
        lemma_records_value(front, i);
    }
}

/// Where no record is below zero, no balance is.
pub proof fn lemma_records_non_negative(accounts: Seq<Account>)
    requires
        no_debt(accounts),
    ensures
        non_negative(records(accounts)),
    decreases accounts.len(),
{
    if accounts.len() > 0 {
        let front = accounts.drop_last();
        assert forall|i: int| 0 <= i < front.len() implies (#[trigger] front[i]).amount >= 0 by {
            assert(front[i] == accounts[i]);
        }
        lemma_records_non_negative(front);
        assert(accounts[accounts.len() - 1].amount >= 0);
    }
}

/// A record appended to the list writes the balance of its owner.
pub proof fn lemma_records_push(accounts: Seq<Account>, account: Account)
    ensures
        records(accounts.push(account)) == records(accounts).insert(
            account.owner,
            account.amount as int,
        ),
{
    assert(accounts.push(account).drop_last() =~= accounts);
}

/// Where no owner has two records, a new amount in one record writes the
/// balance of its owner and nothing else.
pub proof fn lemma_records_update(accounts: Seq<Account>, i: int, amount: i128)
    requires
        distinct_owners(accounts),
        0 <= i < accounts.len(),
    ensures
        records(accounts.update(i, Account { owner: accounts[i].owner, amount }))
            == records(accounts).insert(accounts[i].owner, amount as int),
    decreases accounts.len(),
{
    let owner = accounts[i].owner;
    let updated = accounts.update(i, Account { owner, amount });
    let front = accounts.drop_last();
    let last = accounts.last();
    if i == accounts.len() - 1 {
        assert(updated.drop_last() =~= front);
        assert(records(updated) =~= records(accounts).insert(owner, amount as int));
    } else {
        assert(front[i] == accounts[i]);
        assert(accounts[i].owner != accounts[accounts.len() - 1].owner);
        assert forall|a: int, b: int| 0 <= a < b < front.len() implies (#[trigger] front[a]).owner
            != (#[trigger] front[b]).owner by {
            assert(front[a] == accounts[a] && front[b] == accounts[b]);
        }
        lemma_records_update(front, i, amount);
        assert(updated.drop_last() =~= front.update(i, Account { owner, amount }));
        assert(updated.last() == last);
        assert(records(updated) =~= records(accounts).insert(owner, amount as int));
    }
}

/// Where no owner has two records, the sum of the balances of the first
/// `n + 1` records is that of the first `n` and the amount of the next.
pub proof fn lemma_records_sum_next(accounts: Seq<Account>, n: int)
    requires
        distinct_owners(accounts),
        0 <= n < accounts.len(),
    ensures
        sum_of(records(accounts.take(n + 1))) == sum_of(records(accounts.take(n)))
            + accounts[n].amount,
{
    let front = accounts.take(n);
    let next = accounts[n];
    assert(accounts.take(n + 1) =~= front.push(next));
    lemma_records_push(front, next);
    lemma_records_dom(front);
    if listed(front, next.owner) {
        let i = choose|i: int| 0 <= i < front.len() && (#[trigger] front[i]).owner == next.owner;
        assert(front[i] == accounts[i]);
        assert(accounts[i].owner != accounts[n].owner);
    }
    lemma_sum_insert(records(front), next.owner, next.amount as int);
}

/// Where no owner has two records and none is below zero, the balances of
/// the first `n` records sum to no more than those of all.
pub proof fn lemma_records_sum_grows(accounts: Seq<Account>, n: int)
    requires
        distinct_owners(accounts),
        no_debt(accounts),
        0 <= n <= accounts.len(),
    ensures
        sum_of(records(accounts.take(n))) <= sum_of(records(accounts)),
    decreases accounts.len() - n,
{
    if n == accounts.len() {
        assert(accounts.take(n) =~= accounts);
    } else {
        lemma_records_sum_next(accounts, n);
        lemma_records_sum_grows(accounts, n + 1);
        assert(accounts[n].amount >= 0);
    }
}

/// The balance records of a ledger.
#[derive(Debug)]
pub struct Balances {
    accounts: Vec<Account>,
}

impl View for Balances {
    type V = Map<Address, int>;

    closed spec fn view(&self) -> Map<Address, int> {
        records(self.accounts@)
    }
}

impl Balances {
    /// No owner has two records and no record is below zero.
    pub closed spec fn wf(&self) -> bool {
        &&& distinct_owners(self.accounts@)
        &&& no_debt(self.accounts@)
    }

    /// The balances of a well-formed book are finitely many, and none is
    /// below zero.
    pub proof fn lemma_wf(&self)
        requires
            self.wf(),
        ensures
            self@.dom().finite(),
            non_negative(self@),
    {
        lemma_records_dom(self.accounts@);
        lemma_records_non_negative(self.accounts@);
    }

    /// A book without a record.
    pub fn new() -> (book: Balances)
        ensures
            book.wf(),
            book@ == Map::<Address, int>::empty(),
    {
        Balances { accounts: Vec::new() }
    }

    /// Where the record of `owner` stands, if there is one.
    fn position(&self, owner: &Address) -> (at: Option<usize>)
        ensures
            match at {
                Some(i) => i < self.accounts@.len() && self.accounts@[i as int].owner == *owner,
                None => !listed(self.accounts@, *owner),
            },
    {
        let mut i: usize = 0;
        while i < self.accounts.len()
            invariant
                i <= self.accounts.len(),
                forall|j: int| 0 <= j < i ==> (#[trigger] self.accounts@[j]).owner != *owner,
            decreases self.accounts.len() - i,
        {
            if self.accounts[i].owner == *owner {
                return Some(i);
            }
            i += 1;
        }
        None
    }

    /// Whether `owner` has a record, be it of zero.
    pub fn has(&self, owner: &Address) -> (yes: bool)
        ensures
            yes == self@.dom().contains(*owner),
    {
        proof {
            lemma_records_dom(self.accounts@);
        }
        match self.position(owner) {
            Some(i) => {
                assert(listed(self.accounts@, *owner));
                true
            },
            None => false,
        }
    }

    /// What `owner` holds: the amount of its record, or zero without one.
    pub fn get(&self, owner: &Address) -> (amount: i128)
        requires
            self.wf(),
        ensures
            amount == balance_in(self@, *owner),
            amount >= 0,
    {
        proof {
            lemma_records_dom(self.accounts@);
        }
        match self.position(owner) {
            Some(i) => {
                proof {
                    lemma_records_value(self.accounts@, i as int);
                }
                self.accounts[i].amount
            },
            None => 0,
        }
    }

    /// Writes the record of `owner`, creating it where there was none.
    pub fn store(&mut self, owner: Address, amount: i128)
        requires
            old(self).wf(),
            amount >= 0,
        ensures
            final(self).wf(),
            final(self)@ == old(self)@.insert(owner, amount as int),
    {
        let account = Account { owner, amount };
        match self.position(&owner) {
            Some(i) => {
                proof {
                    lemma_records_update(self.accounts@, i as int, amount);
                }
                self.accounts.set(i, account);
            },
            None => {
                proof {
                    lemma_records_push(self.accounts@, account);
                }
                self.accounts.push(account);
            },
        }
    }

    /// Whether the book holds no record.
    pub fn is_empty(&self) -> (yes: bool)
        ensures
            yes == (self@ == Map::<Address, int>::empty()),
    {
        if self.accounts.len() == 0 {
            true
        } else {
            proof {
                lemma_records_dom(self.accounts@);
                assert(listed(self.accounts@, self.accounts@[0].owner));
                assert(self@.dom().contains(self.accounts@[0].owner));
            }
            false
        }
    }

    /// The sum of all balances, or `None` where it does not fit in an
    /// `i128`.
    pub fn total(&self) -> (sum: Option<i128>)
        requires
            self.wf(),
        ensures
            match sum {
                Some(sum) => sum == sum_of(self@),
                None => sum_of(self@) > i128::MAX,
            },
    {
        let mut sum: i128 = 0;
        let mut i: usize = 0;
        proof {
            assert(self.accounts@.take(0) =~= Seq::<Account>::empty());
            lemma_sum_empty();
        }
        while i < self.accounts.len()
            invariant
                self.wf(),
                i <= self.accounts.len(),
                0 <= sum,
                sum == sum_of(records(self.accounts@.take(i as int))),
            decreases self.accounts.len() - i,
        {
            let amount: i128 = self.accounts[i].amount;
            proof {
                lemma_records_sum_next(self.accounts@, i as int);
                lemma_records_sum_grows(self.accounts@, i + 1);
                assert(self.accounts@[i as int].amount >= 0);
            }
            if amount > i128::MAX - sum {
                return None;
            }
            sum = sum + amount;
            i += 1;
        }
        proof {
            assert(self.accounts@.take(i as int) =~= self.accounts@);
        }
        Some(sum)
    }

    /// The book that a list of records stands for, or `None` where an owner
    /// has two records in it or a record is below zero.
    pub fn from_accounts(accounts: Vec<Account>) -> (book: Option<Balances>)
        ensures
            match book {
                Some(book) => {
                    &&& distinct_owners(accounts@)
                    &&& no_debt(accounts@)
                    &&& book.wf()
                    &&& book@ == records(accounts@)
                },
                None => !(distinct_owners(accounts@) && no_debt(accounts@)),
            },
    {
        let mut i: usize = 0;
        while i < accounts.len()
            invariant
                i <= accounts.len(),
                forall|a: int| 0 <= a < i ==> (#[trigger] accounts@[a]).amount >= 0,
                forall|a: int, b: int|
                    0 <= a < b < i ==> (#[trigger] accounts@[a]).owner != (
                    #[trigger] accounts@[b]).owner,
            decreases accounts.len() - i,
        {
            if accounts[i].amount < 0 {
                return None;
            }
            let mut j: usize = 0;
            while j < i
                invariant
                    j <= i < accounts.len(),
                    forall|a: int|
                        0 <= a < j ==> (#[trigger] accounts@[a]).owner != accounts@[i as int].owner,
                decreases i - j,
            {
                if accounts[j].owner == accounts[i].owner {
                    return None;
                }
                j += 1;
            }
            i += 1;
        }
        Some(Balances { accounts })
    }

    /// The records of the book, one per owner.
    pub fn into_accounts(self) -> (accounts: Vec<Account>)
        requires
            self.wf(),
        ensures
            distinct_owners(accounts@),
            no_debt(accounts@),
            records(accounts@) == self@,
    {
        self.accounts
    }
}

} // verus!
