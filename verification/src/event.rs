//! What a successful operation reports to the outside.

use vstd::prelude::*;
use crate::address::Address;

verus! {

/// The record that a successful operation emits.
#[derive(Clone, Copy, Debug, PartialEq, Eq, Structural, Hash)]
pub enum Event {
    /// The ledger was initialized with this admin.
    Init { admin: Address },
    /// The admin named this identity as minter.
    Minter { minter: Address },
    /// `amount` was issued to `to`; `supply` is the total supply afterwards.
    Mint { to: Address, amount: i128, supply: i128 },
    /// `amount` moved from `from` to `to`.
    Transfer { from: Address, to: Address, amount: i128 },
    /// `amount` was destroyed from the balance of `from`; `supply` is the
    /// total supply afterwards.
    Burn { from: Address, amount: i128, supply: i128 },
}

impl Event {
    /// The topic under which each event is published.
    pub open spec fn spec_topic(self) -> Seq<char> {
        match self {
            Event::Init { .. } => "init"@,
            Event::Minter { .. } => "minter"@,
            Event::Mint { .. } => "mint"@,
            Event::Transfer { .. } => "xfer"@,
            Event::Burn { .. } => "burn"@,
        }
    }

    /// The topic under which this event is published.
    pub fn topic(&self) -> (t: &'static str)
        ensures
            t@ == self.spec_topic(),
    {
        match self {
            Event::Init { .. } => "init",
            Event::Minter { .. } => "minter",
            Event::Mint { .. } => "mint",
            Event::Transfer { .. } => "xfer",
            Event::Burn { .. } => "burn",
        }
    }
}

} // verus!
