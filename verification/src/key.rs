//! The names of the records that a ledger keeps.

use vstd::prelude::*;
use crate::address::Address;

verus! {

/// The name of one record. Records of different kinds cannot share a name.
#[derive(Clone, Copy, Debug, PartialEq, Eq, Structural, Hash)]
pub enum DataKey {
    /// The identity with administrative authority.
    Admin,
    /// The asset's name.
    Name,
    /// The asset's symbol.
    Symbol,
    /// The number of decimals of the asset's denomination.
    Decimals,
    /// The sum of all balances.
    TotalSupply,
    /// What one owner holds.
    Balance(Address),
    /// What an owner lets a spender move. No operation writes such a record.
    Allowance(Address, Address),
    /// The delegate that may issue.
    Minter,
}

} // verus!
