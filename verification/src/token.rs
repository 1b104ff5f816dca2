//! The token: a ledger of balances with one issuing authority.

use vstd::prelude::*;
use crate::address::Address;
use crate::authority::{Authorizations, IssuingAuthority};
use crate::balances::{distinct_owners, no_debt, records, Account, Balances};
use crate::error::Error;
use crate::event::Event;
use crate::key::DataKey;
use crate::model::{Ledger, Metadata};
use crate::sum::{
    lemma_balance_at_most_sum, lemma_sum_empty, lemma_sum_insert, lemma_sum_non_negative,
    lemma_two_balances_at_most_sum,
};

verus! {

/// What initialization writes once and nothing changes afterwards.
#[derive(Debug)]
pub struct Config {
    pub admin: Address,
    pub name: String,
    pub symbol: String,
    pub decimals: u32,
}

impl View for Config {
    type V = Metadata;

    open spec fn view(&self) -> Metadata {
        Metadata {
            admin: self.admin,
            name: self.name@,
            symbol: self.symbol@,
            decimals: self.decimals,
        }
    }
}

/// The view of a configuration that may be missing.
pub open spec fn metadata_of(config: Option<Config>) -> Option<Metadata> {
    match config {
        Some(config) => Some(config@),
        None => None,
    }
}

/// Whether `result` and the token `after` an operation are the `outcome`
/// that the model gives for the token `before` it: on success the event and
/// the next state, on failure the error and the token as it was.
pub open spec fn agrees(
    before: SvtToken,
    after: SvtToken,
    result: Result<Event, Error>,
    outcome: Result<(Ledger, Event), Error>,
) -> bool {
    match outcome {
        Ok((next, event)) => result == Ok::<Event, Error>(event) && after@ == next,
        Err(e) => result == Err::<Event, Error>(e) && after == before,
    }
}

/// The whole of a ledger as plain values, to keep it between invocations.
#[derive(Debug)]
pub struct Snapshot {
    pub config: Option<Config>,
    pub minter: Option<Address>,
    pub total_supply: i128,
    /// The balance records, in no particular order.
    pub accounts: Vec<Account>,
}

impl View for Snapshot {
    type V = Ledger;

    open spec fn view(&self) -> Ledger {
        Ledger {
            metadata: metadata_of(self.config),
            minter: self.minter,
            total_supply: self.total_supply as int,
            balances: records(self.accounts@),
        }
    }
}

impl Snapshot {
    /// Whether the values are those of a ledger that the operations can
    /// reach: no owner has two records, no record is below zero, and the
    /// ledger that they stand for satisfies the invariant.
    pub open spec fn valid(&self) -> bool {
        &&& distinct_owners(self.accounts@)
        &&& no_debt(self.accounts@)
        &&& self@.inv()
    }
}

/// A token ledger.
#[derive(Debug)]
pub struct SvtToken {
    config: Option<Config>,
    minter: Option<Address>,
    total_supply: i128,
    balances: Balances,
}

impl View for SvtToken {
    type V = Ledger;

    closed spec fn view(&self) -> Ledger {
        Ledger {
            metadata: metadata_of(self.config),
            minter: self.minter,
            total_supply: self.total_supply as int,
            balances: self.balances@,
        }
    }
}

impl SvtToken {
    /// The records are well formed and the ledger satisfies its invariant.
    pub closed spec fn wf(&self) -> bool {
        &&& self.balances.wf()
        &&& self@.inv()
    }

    /// A well-formed token satisfies the invariant of the ledger, and its
    /// supply and balances fit the machine's integers.
    pub proof fn lemma_wf(&self)
        requires
            self.wf(),
        ensures
            self@.inv(),
            0 <= self@.total_supply <= i128::MAX,
            forall|owner: Address| 0 <= #[trigger] self@.balance(owner) <= self@.total_supply,
    {
        assert forall|owner: Address| 0 <= #[trigger] self@.balance(owner)
            <= self@.total_supply by {
            lemma_balance_at_most_sum(self@.balances, owner);
        }
        lemma_sum_non_negative(self@.balances);
    }

    /// A ledger before initialization.
    pub fn new() -> (token: SvtToken)
        ensures
            token.wf(),
            token@ == Ledger::fresh(),
    {
        proof {
            lemma_sum_empty();
        }
        SvtToken { config: None, minter: None, total_supply: 0, balances: Balances::new() }
    }

    /// The token that a snapshot stands for, or `None` where the snapshot
    /// is not valid.
    pub fn restore(snapshot: Snapshot) -> (token: Option<SvtToken>)
        ensures
            match token {
                Some(token) => snapshot.valid() && token.wf() && token@ == snapshot@,
                None => !snapshot.valid(),
            },
    {
        let Snapshot { config, minter, total_supply, accounts } = snapshot;
        let balances = match Balances::from_accounts(accounts) {
            Some(balances) => balances,
            None => {
                return None;
            },
        };
        proof {
            balances.lemma_wf();
        }
        match balances.total() {
            Some(sum) => {
                if sum != total_supply {
                    return None;
                }
            },
            None => {
                return None;
            },
        }
        if config.is_none() && (minter.is_some() || !balances.is_empty()) {
            return None;
        }
        Some(SvtToken { config, minter, total_supply, balances })
    }

    /// The whole of the token as plain values.
    pub fn into_snapshot(self) -> (snapshot: Snapshot)
        requires
            self.wf(),
        ensures
            snapshot.valid(),
            snapshot@ == self@,
    {
        let SvtToken { config, minter, total_supply, balances } = self;
        let accounts = balances.into_accounts();
        Snapshot { config, minter, total_supply, accounts }
    }

    /// Whose authorization an issuance needs at present.
    pub fn issuing_authority(&self) -> (authority: Option<IssuingAuthority>)
        ensures
            authority == self@.issuing_authority(),
    {
        match (&self.minter, &self.config) {
            (Some(minter), _) => Some(IssuingAuthority::Minter(*minter)),
            (None, Some(config)) => Some(IssuingAuthority::Admin(config.admin)),
            (None, None) => None,
        }
    }

    /// The identity that has to authorize `initialize` with this admin, or
    /// the failure that comes before the question.
    pub fn initialize_authority(&self, admin: Address) -> (signer: Result<Address, Error>)
        ensures
            signer == self@.initialize_authority(admin),
    {
        if self.config.is_some() {
            Err(Error::AlreadyInitialized)
        } else {
            Ok(admin)
        }
    }

    /// The identity that has to authorize `set_minter`, or the failure that
    /// comes before the question.
    pub fn set_minter_authority(&self) -> (signer: Result<Address, Error>)
        ensures
            signer == self@.set_minter_authority(),
    {
        match &self.config {
            Some(config) => Ok(config.admin),
            None => Err(Error::Uninitialized),
        }
    }

    /// The authority that has to authorize `mint` of this amount, or the
    /// failure that comes before the question.
    pub fn mint_authority(&self, amount: i128) -> (authority: Result<IssuingAuthority, Error>)
        ensures
            authority == self@.mint_authority(amount as int),
    {
        if amount <= 0 {
            return Err(Error::InvalidAmount);
        }
        match self.issuing_authority() {
            Some(authority) => Ok(authority),
            None => Err(Error::Uninitialized),
        }
    }

    /// Installs `admin` and describes the asset. Fails with
    /// `AlreadyInitialized` on a ledger that has an admin, whatever the
    /// arguments, and with `Unauthorized` where `admin` has not authorized.
    pub fn initialize(
        &mut self,
        auth: &Authorizations,
        admin: Address,
        name: String,
        symbol: String,
        decimals: u32,
    ) -> (result: Result<Event, Error>)
        requires
            old(self).wf(),
        ensures
            final(self).wf(),
            final(self)@.inv(),
            agrees(
                *old(self),
                *final(self),
                result,
                old(self)@.initialize(auth@, admin, name@, symbol@, decimals),
            ),
    {
        let signer = match self.initialize_authority(admin) {
            Ok(signer) => signer,
            Err(e) => {
                return Err(e);
            },
        };
        if !auth.authorizes(&signer) {
            return Err(Error::Unauthorized);
        }
        proof {
            lemma_sum_empty();
        }
        self.config = Some(Config { admin, name, symbol, decimals });
        self.total_supply = 0;
        Ok(Event::Init { admin })
    }

    /// Names `minter` as the delegate that may issue. Fails with
    /// `Uninitialized` before initialization and with `Unauthorized` where
    /// the admin has not authorized.
    pub fn set_minter(&mut self, auth: &Authorizations, minter: Address) -> (result: Result<
        Event,
        Error,
    >)
        requires
            old(self).wf(),
        ensures
            final(self).wf(),
            final(self)@.inv(),
            agrees(*old(self), *final(self), result, old(self)@.set_minter(auth@, minter)),
    {
        let signer = match self.set_minter_authority() {
            Ok(signer) => signer,
            Err(e) => {
                return Err(e);
            },
        };
        if !auth.authorizes(&signer) {
            return Err(Error::Unauthorized);
        }
        self.minter = Some(minter);
        Ok(Event::Minter { minter })
    }

    /// Issues `amount` to `to`. Fails with `InvalidAmount` unless the amount
    /// is positive, with `Uninitialized` where there is no authority to ask,
    /// and with `Unauthorized` where the issuing authority has not
    /// authorized. Where the issuance is to succeed, the supply after it has
    /// to fit in an `i128`.
    pub fn mint(&mut self, auth: &Authorizations, to: Address, amount: i128) -> (result: Result<
        Event,
        Error,
    >)
        requires
            old(self).wf(),
            old(self)@.mint(auth@, to, amount as int) is Ok ==> old(self)@.total_supply + amount
                <= i128::MAX,
        ensures
            final(self).wf(),
            final(self)@.inv(),
            agrees(*old(self), *final(self), result, old(self)@.mint(auth@, to, amount as int)),
    {
        let authority = match self.mint_authority(amount) {
            Ok(authority) => authority,
            Err(e) => {
                return Err(e);
            },
        };
        if !auth.authorizes(&authority.identity()) {
            return Err(Error::Unauthorized);
        }
        let held: i128 = self.balances.get(&to);
        proof {
            self.balances.lemma_wf();
            lemma_balance_at_most_sum(self.balances@, to);
            lemma_sum_insert(self.balances@, to, held + amount);
        }
        self.balances.store(to, held + amount);
        self.total_supply = self.total_supply + amount;
        proof {
            self.balances.lemma_wf();
            assert(self.balances@.dom().contains(to));
        }
        Ok(Event::Mint { to, amount, supply: self.total_supply })
    }

    /// Moves `amount` from `from` to `to`. Fails with `Unauthorized` where
    /// `from` has not authorized, with `InvalidAmount` unless the amount is
    /// positive, and with `InsufficientBalance` where `from` holds less.
    pub fn transfer(&mut self, auth: &Authorizations, from: Address, to: Address, amount: i128) -> (
        result: Result<Event, Error>
    )
        requires
            old(self).wf(),
        ensures
            final(self).wf(),
            final(self)@.inv(),
            agrees(
                *old(self),
                *final(self),
                result,
                old(self)@.transfer(auth@, from, to, amount as int),
            ),
    {
        if !auth.authorizes(&from) {
            return Err(Error::Unauthorized);
        }
        if amount <= 0 {
            return Err(Error::InvalidAmount);
        }
        let from_held: i128 = self.balances.get(&from);
        if from_held < amount {
            return Err(Error::InsufficientBalance);
        }
        proof {
            self.balances.lemma_wf();
            assert(self.balances@.dom().contains(from));
            if from != to {
                lemma_two_balances_at_most_sum(self.balances@, from, to);
            }
            lemma_sum_insert(self.balances@, from, from_held - amount);
        }
        self.balances.store(from, from_held - amount);
        let to_held: i128 = self.balances.get(&to);
        proof {
            self.balances.lemma_wf();
            lemma_sum_insert(self.balances@, to, to_held + amount);
        }
        self.balances.store(to, to_held + amount);
        proof {
            self.balances.lemma_wf();
            assert(self.balances@.dom().contains(to));
        }
        Ok(Event::Transfer { from, to, amount })
    }

    /// Destroys `amount` of what `from` holds. Fails with `Unauthorized`
    /// where `from` has not authorized, with `InvalidAmount` unless the
    /// amount is positive, and with `InsufficientBalance` where `from` holds
    /// less.
    pub fn burn(&mut self, auth: &Authorizations, from: Address, amount: i128) -> (result: Result<
        Event,
        Error,
    >)
        requires
            old(self).wf(),
        ensures
            final(self).wf(),
            final(self)@.inv(),
            agrees(*old(self), *final(self), result, old(self)@.burn(auth@, from, amount as int)),
    {
        if !auth.authorizes(&from) {
            return Err(Error::Unauthorized);
        }
        if amount <= 0 {
            return Err(Error::InvalidAmount);
        }
        let held: i128 = self.balances.get(&from);
        if held < amount {
            return Err(Error::InsufficientBalance);
        }
        proof {
            self.balances.lemma_wf();
            assert(self.balances@.dom().contains(from));
            lemma_balance_at_most_sum(self.balances@, from);
            lemma_sum_insert(self.balances@, from, held - amount);
        }
        self.balances.store(from, held - amount);
        self.total_supply = self.total_supply - amount;
        proof {
            self.balances.lemma_wf();
            assert(self.balances@.dom().contains(from));
        }
        Ok(Event::Burn { from, amount, supply: self.total_supply })
    }

    /// What `account` holds; zero for an owner without a record.
    pub fn balance(&self, account: Address) -> (amount: i128)
        requires
            self.wf(),
        ensures
            amount == self@.balance(account),
    {
        self.balances.get(&account)
    }

    /// The total supply; zero before initialization, where the other
    /// records of the asset fail to be read.
    pub fn total_supply(&self) -> (supply: i128)
        requires
            self.wf(),
        ensures
            supply == self@.total_supply,
            supply >= 0,
            self@.metadata is None ==> supply == 0,
    {
        proof {
            self.lemma_wf();
            lemma_sum_empty();
        }
        self.total_supply
    }

    /// The asset's name; `Uninitialized` before initialization.
    pub fn name(&self) -> (name: Result<String, Error>)
        ensures
            match self@.metadata {
                Some(metadata) => name is Ok && name->Ok_0@ == metadata.name,
                None => name == Err::<String, Error>(Error::Uninitialized),
            },
    {
        match &self.config {
            Some(config) => Ok(config.name.clone()),
            None => Err(Error::Uninitialized),
        }
    }

    /// The asset's symbol; `Uninitialized` before initialization.
    pub fn symbol(&self) -> (symbol: Result<String, Error>)
        ensures
            match self@.metadata {
                Some(metadata) => symbol is Ok && symbol->Ok_0@ == metadata.symbol,
                None => symbol == Err::<String, Error>(Error::Uninitialized),
            },
    {
        match &self.config {
            Some(config) => Ok(config.symbol.clone()),
            None => Err(Error::Uninitialized),
        }
    }

    /// The asset's number of decimals; `Uninitialized` before
    /// initialization.
    pub fn decimals(&self) -> (decimals: Result<u32, Error>)
        ensures
            decimals == match self@.metadata {
                Some(metadata) => Ok::<u32, Error>(metadata.decimals),
                None => Err::<u32, Error>(Error::Uninitialized),
            },
    {
        match &self.config {
            Some(config) => Ok(config.decimals),
            None => Err(Error::Uninitialized),
        }
    }

    /// The minter, where the admin has named one.
    pub fn get_minter(&self) -> (minter: Option<Address>)
        ensures
            minter == self@.minter,
    {
        self.minter
    }

    /// Whether the ledger keeps the record that `key` names.
    pub fn has(&self, key: &DataKey) -> (yes: bool)
        ensures
            yes == self@.has(*key),
    {
        match key {
            DataKey::Admin | DataKey::Name | DataKey::Symbol | DataKey::Decimals
            | DataKey::TotalSupply => self.config.is_some(),
            DataKey::Balance(owner) => self.balances.has(owner),
            DataKey::Allowance(_, _) => false,
            DataKey::Minter => self.minter.is_some(),
        }
    }
}

} // verus!
