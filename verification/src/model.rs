//! The ledger as a mathematical object: its state, the outcome of each
//! operation, and the invariant that every operation keeps.

use vstd::prelude::*;
use crate::address::Address;
use crate::authority::IssuingAuthority;
use crate::error::Error;
use crate::event::Event;
use crate::key::DataKey;
use crate::sum::{balance_in, non_negative, sum_of};

verus! {

/// What initialization writes once and nothing changes afterwards.
pub struct Metadata {
    pub admin: Address,
    pub name: Seq<char>,
    pub symbol: Seq<char>,
    pub decimals: u32,
}

/// The state of a ledger.
pub struct Ledger {
    /// The admin and the asset's description; `None` before initialization.
    pub metadata: Option<Metadata>,
    /// The delegate that may issue, where the admin has named one.
    pub minter: Option<Address>,
    pub total_supply: int,
    /// The balance records. An owner without a record holds nothing.
    pub balances: Map<Address, int>,
}

/// An operation with its arguments.
pub enum Operation {
    Initialize { admin: Address, name: Seq<char>, symbol: Seq<char>, decimals: u32 },
    SetMinter { minter: Address },
    Mint { to: Address, amount: int },
    Transfer { from: Address, to: Address, amount: int },
    Burn { from: Address, amount: int },
}

/// One invocation: the identities that authorized it, and the operation.
pub struct Invocation {
    pub authorized: Set<Address>,
    pub operation: Operation,
}

impl Ledger {
    /// The ledger before initialization.
    pub open spec fn fresh() -> Ledger {
        Ledger { metadata: None, minter: None, total_supply: 0, balances: Map::empty() }
    }

    /// What `owner` holds.
    pub open spec fn balance(self, owner: Address) -> int {
        balance_in(self.balances, owner)
    }

    /// Whether the ledger keeps the record that `key` names. Initialization
    /// writes the five records of the asset at once, the first credit to an
    /// owner creates its balance record, and nothing removes a record.
    pub open spec fn has(self, key: DataKey) -> bool {
        match key {
            DataKey::Admin | DataKey::Name | DataKey::Symbol | DataKey::Decimals
            | DataKey::TotalSupply => self.metadata is Some,
            DataKey::Balance(owner) => self.balances.dom().contains(owner),
            DataKey::Allowance(_, _) => false,
            DataKey::Minter => self.minter is Some,
        }
    }

    /// The total supply is the sum of all balances.
    pub open spec fn conserved(self) -> bool {
        &&& self.balances.dom().finite()
        &&& self.total_supply == sum_of(self.balances)
    }

    /// What holds of every ledger that the operations can reach: the supply
    /// is conserved, no balance is negative, and before initialization there
    /// is neither a minter nor a balance record.
    pub open spec fn inv(self) -> bool {
        &&& self.conserved()
        &&& non_negative(self.balances)
        &&& self.metadata is None ==> {
            &&& self.minter is None
            &&& self.balances == Map::<Address, int>::empty()
        }
    }

    /// The ledger with `amount` added to what `owner` holds.
    pub open spec fn credit(self, owner: Address, amount: int) -> Ledger {
        Ledger {
            balances: self.balances.insert(owner, self.balance(owner) + amount),
            ..self
        }
    }

    /// The ledger with `amount` taken from what `owner` holds.
    pub open spec fn debit(self, owner: Address, amount: int) -> Ledger {
        self.credit(owner, -amount)
    }

    /// Whose authorization an issuance needs: the minter's where one is
    /// named, else the admin's; nobody's before initialization.
    pub open spec fn issuing_authority(self) -> Option<IssuingAuthority> {
        match (self.minter, self.metadata) {
            (Some(minter), _) => Some(IssuingAuthority::Minter(minter)),
            (None, Some(metadata)) => Some(IssuingAuthority::Admin(metadata.admin)),
            (None, None) => None,
        }
    }

    /// The identity that has to authorize the installation of `admin`, or
    /// why there is none to ask.
    pub open spec fn initialize_authority(self, admin: Address) -> Result<Address, Error> {
        if self.metadata is Some {
            Err(Error::AlreadyInitialized)
        } else {
            Ok(admin)
        }
    }

    /// The identity that has to authorize the naming of a minter, or why
    /// there is none to ask.
    pub open spec fn set_minter_authority(self) -> Result<Address, Error> {
        match self.metadata {
            Some(metadata) => Ok(metadata.admin),
            None => Err(Error::Uninitialized),
        }
    }

    /// The authority that has to authorize the issuance of `amount`, or why
    /// there is none to ask.
    pub open spec fn mint_authority(self, amount: int) -> Result<IssuingAuthority, Error> {
        if amount <= 0 {
            Err(Error::InvalidAmount)
        } else {
            match self.issuing_authority() {
                Some(authority) => Ok(authority),
                None => Err(Error::Uninitialized),
            }
        }
    }

    /// The outcome of an initialization.
    pub open spec fn initialize(
        self,
        authorized: Set<Address>,
        admin: Address,
        name: Seq<char>,
        symbol: Seq<char>,
        decimals: u32,
    ) -> Result<(Ledger, Event), Error> {
        match self.initialize_authority(admin) {
            Err(e) => Err(e),
            Ok(signer) => if !authorized.contains(signer) {
                Err(Error::Unauthorized)
            } else {
                Ok(
                    (
                        Ledger {
                            metadata: Some(Metadata { admin, name, symbol, decimals }),
                            total_supply: 0,
                            ..self
                        },
                        Event::Init { admin },
                    ),
                )
            },
        }
    }

    /// The outcome of naming `minter` as the delegate that may issue.
    pub open spec fn set_minter(self, authorized: Set<Address>, minter: Address) -> Result<
        (Ledger, Event),
        Error,
    > {
        match self.set_minter_authority() {
            Err(e) => Err(e),
            Ok(signer) => if !authorized.contains(signer) {
                Err(Error::Unauthorized)
            } else {
                Ok((Ledger { minter: Some(minter), ..self }, Event::Minter { minter }))
            },
        }
    }

    /// The outcome of issuing `amount` to `to`.
    pub open spec fn mint(self, authorized: Set<Address>, to: Address, amount: int) -> Result<
        (Ledger, Event),
        Error,
    > {
        match self.mint_authority(amount) {
            Err(e) => Err(e),
            Ok(authority) => if !authorized.contains(authority.identity()) {
                Err(Error::Unauthorized)
            } else {
                let supply = self.total_supply + amount;
                Ok(
                    (
                        Ledger { total_supply: supply, ..self.credit(to, amount) },
                        Event::Mint { to, amount: amount as i128, supply: supply as i128 },
                    ),
                )
            },
        }
    }

    /// The outcome of moving `amount` from `from` to `to`. A transfer to
    /// oneself is a debit and a credit of the same record.
    pub open spec fn transfer(
        self,
        authorized: Set<Address>,
        from: Address,
        to: Address,
        amount: int,
    ) -> Result<(Ledger, Event), Error> {
        if !authorized.contains(from) {
            Err(Error::Unauthorized)
        } else if amount <= 0 {
            Err(Error::InvalidAmount)
        } else if self.balance(from) < amount {
            Err(Error::InsufficientBalance)
        } else {
            Ok(
                (
                    self.debit(from, amount).credit(to, amount),
                    Event::Transfer { from, to, amount: amount as i128 },
                ),
            )
        }
    }

    /// The outcome of destroying `amount` of what `from` holds.
    pub open spec fn burn(self, authorized: Set<Address>, from: Address, amount: int) -> Result<
        (Ledger, Event),
        Error,
    > {
        if !authorized.contains(from) {
            Err(Error::Unauthorized)
        } else if amount <= 0 {
            Err(Error::InvalidAmount)
        } else if self.balance(from) < amount {
            Err(Error::InsufficientBalance)
        } else {
            let supply = self.total_supply - amount;
            Ok(
                (
                    Ledger { total_supply: supply, ..self.debit(from, amount) },
                    Event::Burn { from, amount: amount as i128, supply: supply as i128 },
                ),
            )
        }
    }

    /// The outcome of one invocation.
    pub open spec fn step(self, invocation: Invocation) -> Result<(Ledger, Event), Error> {
        let authorized = invocation.authorized;
        match invocation.operation {
            Operation::Initialize { admin, name, symbol, decimals } => self.initialize(
                authorized,
                admin,
                name,
                symbol,
                decimals,
            ),
            Operation::SetMinter { minter } => self.set_minter(authorized, minter),
            Operation::Mint { to, amount } => self.mint(authorized, to, amount),
            Operation::Transfer { from, to, amount } => self.transfer(authorized, from, to, amount),
            Operation::Burn { from, amount } => self.burn(authorized, from, amount),
        }
    }

    /// The ledger after one invocation: a failed one leaves it as it was.
    pub open spec fn after(self, invocation: Invocation) -> Ledger {
        match self.step(invocation) {
            Ok((next, _)) => next,
            Err(_) => self,
        }
    }

    /// The ledger after a sequence of invocations, the first one first.
    pub open spec fn after_all(self, invocations: Seq<Invocation>) -> Ledger
        decreases invocations.len(),
    {
        if invocations.len() == 0 {
            self
        } else {
            self.after_all(invocations.drop_last()).after(invocations.last())
        }
    }
}

} // verus!
