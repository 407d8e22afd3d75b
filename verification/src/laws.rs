//! Properties of the ledger proved from the operation contracts alone.
//!
//! Each lemma here is stated over the transition predicates that the
//! operations ensure ([`transfer_spec`], [`approve_effect`],
//! [`transfer_from_spec`]), so it holds of any sequence of calls on any
//! ledger.

use vstd::prelude::*;
use crate::account::AccountId;
use crate::errors::Error;
use crate::ledger::{
    approve_effect, transfer_from_spec, transfer_spec, MockDai,
};

verus! {

/// Conservation: the sum of the balances of all accounts equals the total
/// supply. [`MockDai::new`] establishes [`MockDai::wf`] and every
/// operation preserves it, so this holds after any sequence of successful
/// or failed operations.
pub proof fn lemma_conservation(l: MockDai)
    requires
        l.wf(),
    ensures
        l.spec_sum_of_balances() == l.spec_total_supply(),
{
}

/// Atomic failure: a transfer that fails can only fail for an
/// insufficient balance, and leaves every balance — in particular the
/// caller's and the recipient's — unchanged.
pub proof fn lemma_transfer_atomic_failure(
    pre: MockDai,
    post: MockDai,
    caller: AccountId,
    to: AccountId,
    amount: u128,
    r: Result<(), Error>,
)
    requires
        transfer_spec(pre, post, caller, to, amount, r),
        r is Err,
    ensures
        r == Err::<(), Error>(Error::InsufficientBalance),
        post.spec_balance_of(caller) == pre.spec_balance_of(caller),
        post.spec_balance_of(to) == pre.spec_balance_of(to),
{
}

/// Allowance overwrite, not accumulation: after two approvals for the
/// same (owner, spender) pair, the allowance is the second amount alone,
/// whatever the first was.
pub proof fn lemma_approve_overwrites(
    l0: MockDai,
    l1: MockDai,
    l2: MockDai,
    owner: AccountId,
    spender: AccountId,
    first: u128,
    second: u128,
)
    requires
        approve_effect(l0, l1, owner, spender, first),
        approve_effect(l1, l2, owner, spender, second),
    ensures
        l2.spec_allowance(owner, spender) == second,
{
}

/// Delegated spend decrements exactly: when a delegated transfer of
/// `amount` succeeds after an approval of `approved`, the remaining
/// allowance is `approved - amount`, the owner's balance decreased by
/// `amount`, and the recipient's increased by `amount` (a distinct
/// recipient; an owner-to-owner move nets to nothing).
pub proof fn lemma_delegated_spend_decrements(
    l0: MockDai,
    l1: MockDai,
    l2: MockDai,
    owner: AccountId,
    spender: AccountId,
    recipient: AccountId,
    approved: u128,
    amount: u128,
    r: Result<(), Error>,
)
    requires
        approve_effect(l0, l1, owner, spender, approved),
        transfer_from_spec(l1, l2, spender, owner, recipient, amount, r),
        r is Ok,
    ensures
        amount <= approved,
        l2.spec_allowance(owner, spender) == approved - amount,
        owner != recipient ==> l2.spec_balance_of(owner) == l1.spec_balance_of(owner) - amount,
        owner != recipient ==> l2.spec_balance_of(recipient) == l1.spec_balance_of(recipient)
            + amount,
{
}

/// Insufficient allowance blocks the spend even when the owner's balance
/// would cover it: the delegated transfer fails with
/// `InsufficientAllowance` and the whole state — balances and the
/// allowance itself — is unchanged.
pub proof fn lemma_insufficient_allowance_blocks(
    l0: MockDai,
    l1: MockDai,
    l2: MockDai,
    owner: AccountId,
    spender: AccountId,
    recipient: AccountId,
    approved: u128,
    amount: u128,
    r: Result<(), Error>,
)
    requires
        approve_effect(l0, l1, owner, spender, approved),
        approved < amount,
        transfer_from_spec(l1, l2, spender, owner, recipient, amount, r),
    ensures
        r == Err::<(), Error>(Error::InsufficientAllowance),
        l2 == l1,
        l2.spec_balance_of(owner) == l1.spec_balance_of(owner),
        l2.spec_balance_of(recipient) == l1.spec_balance_of(recipient),
        l2.spec_allowance(owner, spender) == approved,
{
}

/// Self-transfer no-op: a transfer from an account to itself, covered by
/// its balance, succeeds and leaves every balance unchanged.
pub proof fn lemma_self_transfer_noop(
    pre: MockDai,
    post: MockDai,
    account: AccountId,
    amount: u128,
    r: Result<(), Error>,
)
    requires
        pre.spec_balance_of(account) >= amount,
        transfer_spec(pre, post, account, account, amount, r),
    ensures
        r == Ok::<(), Error>(()),
        forall|x: AccountId| post.spec_balance_of(x) == pre.spec_balance_of(x),
{
}

} // verus!
