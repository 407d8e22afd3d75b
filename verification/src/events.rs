//! Notification values announcing successful state changes.
//!
//! The ledger does not call into any delivery mechanism; it appends these
//! values to an outbox (see [`crate::ledger::MockDai::events`]) for a
//! collaborator to consume.

use vstd::prelude::*;
use crate::account::AccountId;

verus! {

/// Announces that `value` moved from `from` to `to`.
///
/// `from` is `None` only for the issuance at construction time, which
/// credits the whole supply to the minter.
#[derive(Clone, Copy, Debug, PartialEq, Eq)]
pub struct Transfer {
    pub from: Option<AccountId>,
    pub to: Option<AccountId>,
    pub value: u128,
}

/// Announces that `owner` set `spender`'s allowance to `amount`.
#[derive(Clone, Copy, Debug, PartialEq, Eq)]
pub struct Approval {
    pub owner: AccountId,
    pub spender: AccountId,
    pub amount: u128,
}

/// One entry of the notification outbox.
#[derive(Clone, Copy, Debug, PartialEq, Eq)]
pub enum Event {
    Transfer(Transfer),
    Approval(Approval),
}

} // verus!
