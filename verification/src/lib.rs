//! A fungible-token ledger with a fixed total supply.
//!
//! The [`ledger::MockDai`] type tracks per-account balances and delegated
//! spending allowances, and moves value between accounts under strict
//! conservation and authorization invariants. Callers are identified by
//! plain [`account::AccountId`] values supplied explicitly to every
//! operation; successful state changes append notification values to an
//! outbox that a collaborator may read.

pub mod account;
pub mod errors;
pub mod events;
pub mod store;
pub mod ledger;
pub mod laws;

pub use account::AccountId;
pub use errors::Error;
pub use events::{Approval, Event, Transfer};
pub use ledger::MockDai;
