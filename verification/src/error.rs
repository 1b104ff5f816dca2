//! Why an operation on the ledger fails.

use vstd::prelude::*;

verus! {

/// The failures of the ledger. Each one aborts the whole operation and leaves
/// the ledger as it was.
#[derive(Clone, Copy, Debug, PartialEq, Eq, Structural, Hash)]
pub enum Error {
    /// The ledger already has an admin.
    AlreadyInitialized,
    /// The identity that had to authorize the operation did not.
    Unauthorized,
    /// The amount is zero or negative.
    InvalidAmount,
    /// The debit would drive a balance below zero.
    InsufficientBalance,
    /// A record that initialization writes was read before initialization.
    Uninitialized,
}

impl Error {
    /// The text of the reason that stands for each failure.
    pub open spec fn spec_reason(self) -> Seq<char> {
        match self {
            Error::AlreadyInitialized => "already initialized"@,
            Error::Unauthorized => "unauthorized"@,
            Error::InvalidAmount => "amount must be positive"@,
            Error::InsufficientBalance => "insufficient balance"@,
            Error::Uninitialized => "uninitialized"@,
        }
    }

    /// A short reason by which a caller tells the failures apart.
    pub fn reason(&self) -> (r: &'static str)
        ensures
            r@ == self.spec_reason(),
    {
        match self {
            Error::AlreadyInitialized => "already initialized",
            Error::Unauthorized => "unauthorized",
            Error::InvalidAmount => "amount must be positive",
            Error::InsufficientBalance => "insufficient balance",
            Error::Uninitialized => "uninitialized",
        }
    }
}

} // verus!
