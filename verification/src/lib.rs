//! A fungible token ledger with delegated issuance.
//!
//! [`SvtToken`] keeps the balances and the total supply of one asset. Its
//! operations take the identities that authorized the invocation and return
//! the event to publish or the reason of the failure. [`model::Ledger`] is
//! the ledger as a mathematical object, and [`laws`] holds what is proved of
//! it.

pub mod address;
pub mod authority;
pub mod balances;
pub mod error;
pub mod event;
pub mod key;
pub mod laws;
pub mod model;
pub mod sum;
pub mod token;

pub use address::{Address, AddressKind};
pub use authority::{Authorizations, IssuingAuthority};
pub use balances::Account;
pub use error::Error;
pub use event::Event;
pub use key::DataKey;
pub use token::{Config, Snapshot, SvtToken};
