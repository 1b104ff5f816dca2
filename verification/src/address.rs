//! Identities that own balances and authorize operations.

use vstd::prelude::*;

verus! {

/// What stands behind an identity.
#[derive(Clone, Copy, Debug, PartialEq, Eq, Structural, Hash)]
pub enum AddressKind {
    /// A key pair held by a user.
    Account,
    /// A deployed contract, such as a vault that mints rewards.
    Contract,
}

/// An identity: the kind of holder and its 256-bit key, in two halves.
///
/// The ledger reads nothing of an identity but whether two are the same.
#[derive(Clone, Copy, Debug, PartialEq, Eq, Structural, Hash)]
pub struct Address {
    pub kind: AddressKind,
    pub hi: u128,
    pub lo: u128,
}

impl Address {
    /// The account identity with the given key.
    pub fn account(hi: u128, lo: u128) -> (a: Address)
        ensures
            a == (Address { kind: AddressKind::Account, hi, lo }),
    {
        Address { kind: AddressKind::Account, hi, lo }
    }

    /// The contract identity with the given key.
    pub fn contract(hi: u128, lo: u128) -> (a: Address)
        ensures
            a == (Address { kind: AddressKind::Contract, hi, lo }),
    {
        Address { kind: AddressKind::Contract, hi, lo }
    }
}

} // verus!
