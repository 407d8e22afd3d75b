//! The two ways a ledger operation can fail.

use vstd::prelude::*;

verus! {

/// Why a transfer was refused. The state is left unchanged whenever one of
/// these is returned.
#[derive(Clone, Copy, Debug, PartialEq, Eq, Structural)]
pub enum Error {
    /// The account a balance movement draws from does not hold enough to
    /// cover the requested amount.
    InsufficientBalance,
    /// The delegated spender's remaining authorized amount is less than the
    /// requested amount.
    InsufficientAllowance,
}

} // verus!
