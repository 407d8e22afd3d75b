//! Account identifiers and the (owner, spender) key of an allowance entry.

use vstd::prelude::*;

verus! {

/// An opaque fixed-size identifier of a party that can hold or move value.
///
/// Only equality of identifiers matters to the ledger; no ordering is
/// assumed or used.
#[derive(Clone, Copy, Debug, Hash, PartialEq, Eq, Structural)]
pub struct AccountId {
    pub id: u128,
}

/// The key of an allowance entry: `owner` has authorized `spender` to move
/// value out of `owner`'s balance.
#[derive(Clone, Copy, Debug, Hash, PartialEq, Eq, Structural)]
pub struct AccountPair {
    pub owner: AccountId,
    pub spender: AccountId,
}

} // verus!
