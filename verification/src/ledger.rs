//! The fungible-token ledger: fixed total supply, per-account balances,
//! and delegated spending allowances.
//!
//! Every operation is atomic: it either completes fully (all mutations and
//! one notification appended to the outbox) or returns an error and leaves
//! the state unchanged. The caller's identity is supplied explicitly to
//! every state-changing operation; the ledger never resolves identity
//! itself.

use vstd::prelude::*;
use crate::account::{AccountId, AccountPair};
use crate::errors::Error;
use crate::events::{Approval, Event, Transfer};
use crate::store::{AllowanceStore, BalanceStore};

verus! {

/// A fixed-supply fungible-token ledger.
pub struct MockDai {
    /// The sum of all active tokens, fixed at construction.
    total_supply: u128,
    /// Per-account balances; an account without an entry holds 0.
    balances: BalanceStore,
    /// Remaining delegated amounts, keyed by (owner, spender); a pair
    /// without an entry has allowance 0.
    allowances: AllowanceStore,
    /// Notifications of successful state changes, oldest first, for a
    /// collaborator to consume.
    events: Vec<Event>,
}

/// Balances after moving `amount` from `from` to `to`: `from` is debited,
/// `to` is credited, everyone else keeps their balance, and a
/// self-transfer changes nothing.
pub open spec fn balances_moved(
    pre: MockDai,
    post: MockDai,
    from: AccountId,
    to: AccountId,
    amount: u128,
) -> bool {
    forall|x: AccountId|
        #![trigger post.spec_balance_of(x)]
        post.spec_balance_of(x) == if from == to {
            pre.spec_balance_of(x) as int
        } else if x == from {
            pre.spec_balance_of(x) - amount
        } else if x == to {
            pre.spec_balance_of(x) + amount
        } else {
            pre.spec_balance_of(x) as int
        }
}

/// No balance changed between `pre` and `post`.
pub open spec fn balances_unchanged(pre: MockDai, post: MockDai) -> bool {
    forall|x: AccountId|
        #![trigger post.spec_balance_of(x)]
        post.spec_balance_of(x) == pre.spec_balance_of(x)
}

/// No allowance changed between `pre` and `post`.
pub open spec fn allowances_unchanged(pre: MockDai, post: MockDai) -> bool {
    forall|o: AccountId, s: AccountId|
        #![trigger post.spec_allowance(o, s)]
        post.spec_allowance(o, s) == pre.spec_allowance(o, s)
}

/// The full effect of a successful movement of `amount` from `from` to
/// `to`: balances move, the supply and all allowances stay, and one
/// transfer notification is appended.
pub open spec fn transfer_effect(
    pre: MockDai,
    post: MockDai,
    from: AccountId,
    to: AccountId,
    amount: u128,
) -> bool {
    &&& post.spec_total_supply() == pre.spec_total_supply()
    &&& balances_moved(pre, post, from, to, amount)
    &&& allowances_unchanged(pre, post)
    &&& post.spec_events() == pre.spec_events().push(
        Event::Transfer(Transfer { from: Some(from), to: Some(to), value: amount }),
    )
}

/// The contract of [`MockDai::transfer`]: success exactly when the caller
/// holds at least `amount`, and no state change on failure.
pub open spec fn transfer_spec(
    pre: MockDai,
    post: MockDai,
    caller: AccountId,
    to: AccountId,
    amount: u128,
    r: Result<(), Error>,
) -> bool {
    if pre.spec_balance_of(caller) >= amount {
        r == Ok::<(), Error>(()) && transfer_effect(pre, post, caller, to, amount)
    } else {
        r == Err::<(), Error>(Error::InsufficientBalance) && post == pre
    }
}

/// The full effect of [`MockDai::approve`]: the (caller, spender)
/// allowance is overwritten with `amount` — not added to — and nothing
/// else changes but one appended approval notification.
pub open spec fn approve_effect(
    pre: MockDai,
    post: MockDai,
    caller: AccountId,
    spender: AccountId,
    amount: u128,
) -> bool {
    &&& post.spec_total_supply() == pre.spec_total_supply()
    &&& balances_unchanged(pre, post)
    &&& forall|o: AccountId, s: AccountId|
        #![trigger post.spec_allowance(o, s)]
        post.spec_allowance(o, s) == if o == caller && s == spender {
            amount
        } else {
            pre.spec_allowance(o, s)
        }
    &&& post.spec_events() == pre.spec_events().push(
        Event::Approval(Approval { owner: caller, spender, amount }),
    )
}

/// The full effect of a successful [`MockDai::transfer_from`]: the same
/// balance movement as a direct transfer, and the (from, caller) allowance
/// decreased by exactly `amount`.
pub open spec fn transfer_from_effect(
    pre: MockDai,
    post: MockDai,
    caller: AccountId,
    from: AccountId,
    to: AccountId,
    amount: u128,
) -> bool {
    &&& post.spec_total_supply() == pre.spec_total_supply()
    &&& balances_moved(pre, post, from, to, amount)
    &&& forall|o: AccountId, s: AccountId|
        #![trigger post.spec_allowance(o, s)]
        post.spec_allowance(o, s) == if o == from && s == caller {
            pre.spec_allowance(from, caller) - amount
        } else {
            pre.spec_allowance(o, s) as int
        }
    &&& post.spec_events() == pre.spec_events().push(
        Event::Transfer(Transfer { from: Some(from), to: Some(to), value: amount }),
    )
}

/// The contract of [`MockDai::transfer_from`]: the allowance is checked
/// first, then the balance; each failure leaves the state unchanged, so
/// in particular the allowance is never decremented when the balance
/// check fails.
pub open spec fn transfer_from_spec(
    pre: MockDai,
    post: MockDai,
    caller: AccountId,
    from: AccountId,
    to: AccountId,
    amount: u128,
    r: Result<(), Error>,
) -> bool {
    if pre.spec_allowance(from, caller) < amount {
        r == Err::<(), Error>(Error::InsufficientAllowance) && post == pre
    } else if pre.spec_balance_of(from) < amount {
        r == Err::<(), Error>(Error::InsufficientBalance) && post == pre
    } else {
        r == Ok::<(), Error>(()) && transfer_from_effect(pre, post, caller, from, to, amount)
    }
}

impl MockDai {
    /// The fixed total supply.
    pub closed spec fn spec_total_supply(self) -> u128 {
        self.total_supply
    }

    /// The balance held by `account`; 0 when it never received anything.
    pub closed spec fn spec_balance_of(self, account: AccountId) -> u128 {
        self.balances.spec_get(account)
    }

    /// The remaining amount `spender` may move out of `owner`'s balance.
    pub closed spec fn spec_allowance(self, owner: AccountId, spender: AccountId) -> u128 {
        self.allowances.spec_get(AccountPair { owner, spender })
    }

    /// The notification outbox, oldest first.
    pub closed spec fn spec_events(self) -> Seq<Event> {
        self.events@
    }

    /// The sum of the balances of all accounts.
    pub closed spec fn spec_sum_of_balances(self) -> int {
        self.balances.total()
    }

    /// Both stores keep at most one entry per key, so
    /// [`Self::spec_sum_of_balances`] counts each account once.
    pub closed spec fn stores_wf(self) -> bool {
        self.balances.wf() && self.allowances.wf()
    }

    /// Conservation: no operation creates or destroys value, so the sum
    /// of all balances always equals the total supply. Established by
    /// [`Self::new`] and preserved by every operation.
    pub open spec fn wf(self) -> bool {
        &&& self.stores_wf()
        &&& self.spec_sum_of_balances() == self.spec_total_supply()
    }

    /// Creates the ledger with `total_supply` credited entirely to
    /// `minter`, no allowances, and one issuance notification (a transfer
    /// from no account to `minter`).
    pub fn new(total_supply: u128, minter: AccountId) -> (r: MockDai)
        ensures
            r.wf(),
            r.spec_total_supply() == total_supply,
            r.spec_balance_of(minter) == total_supply,
            forall|x: AccountId| x != minter ==> r.spec_balance_of(x) == 0,
            forall|o: AccountId, s: AccountId| r.spec_allowance(o, s) == 0,
            r.spec_events() == seq![
                Event::Transfer(Transfer { from: None, to: Some(minter), value: total_supply }),
            ],
    {
        let mut balances = BalanceStore::new();
        balances.set(minter, total_supply);
        let allowances = AllowanceStore::new();
        let mut events: Vec<Event> = Vec::new();
        events.push(Event::Transfer(Transfer {
            from: None,
            to: Some(minter),
            value: total_supply,
        }));
        let r = MockDai { total_supply, balances, allowances, events };
        proof {
            assert(r.spec_events() =~= seq![
                Event::Transfer(Transfer { from: None, to: Some(minter), value: total_supply }),
            ]);
        }
        r
    }

    /// Returns the fixed total supply.
    pub fn total_supply(&self) -> (r: u128)
        ensures
            r == self.spec_total_supply(),
    {
        self.total_supply
    }

    /// Returns the balance of `account`, 0 when it has none.
    pub fn balance_of(&self, account: AccountId) -> (r: u128)
        ensures
            r == self.spec_balance_of(account),
    {
        self.balances.get(account)
    }

    /// Returns the remaining amount `spender` may move out of `owner`'s
    /// balance, 0 when nothing was approved.
    pub fn allowance(&self, owner: AccountId, spender: AccountId) -> (r: u128)
        ensures
            r == self.spec_allowance(owner, spender),
    {
        self.allowances.get(AccountPair { owner, spender })
    }

    /// The notifications emitted so far, oldest first.
    pub fn events(&self) -> (r: &Vec<Event>)
        ensures
            r@ == self.spec_events(),
    {
        &self.events
    }

    /// Moves `amount` from the caller's balance to `to`.
    ///
    /// Fails with [`Error::InsufficientBalance`] — leaving the state
    /// unchanged — exactly when the caller holds less than `amount`.
    pub fn transfer(&mut self, caller: AccountId, to: AccountId, amount: u128) -> (r: Result<
        (),
        Error,
    >)
        requires
            old(self).wf(),
        ensures
            final(self).wf(),
            transfer_spec(*old(self), *final(self), caller, to, amount, r),
    {
        self.transfer_from_to(caller, to, amount)
    }

    /// Sets the allowance of `spender` over the caller's balance to
    /// `amount`, overwriting any earlier approval. Cannot fail.
    pub fn approve(&mut self, caller: AccountId, spender: AccountId, amount: u128) -> (r: Result<
        (),
        Error,
    >)
        ensures
            r == Ok::<(), Error>(()),
            approve_effect(*old(self), *final(self), caller, spender, amount),
            old(self).wf() ==> final(self).wf(),
    {
        self.allowances.set(AccountPair { owner: caller, spender }, amount);
        self.events.push(Event::Approval(Approval { owner: caller, spender, amount }));
        Ok(())
    }

    /// Moves `amount` from `from` to `to` on behalf of `from`, spending
    /// the caller's allowance.
    ///
    /// The allowance is checked first: if it is less than `amount`, the
    /// result is [`Error::InsufficientAllowance`]. Otherwise, if `from`
    /// holds less than `amount`, the result is
    /// [`Error::InsufficientBalance`] and the allowance is not touched.
    /// Either failure leaves the state unchanged. On success the balances
    /// move and the (from, caller) allowance decreases by exactly
    /// `amount`.
    pub fn transfer_from(
        &mut self,
        caller: AccountId,
        from: AccountId,
        to: AccountId,
        amount: u128,
    ) -> (r: Result<(), Error>)
        requires
            old(self).wf(),
        ensures
            final(self).wf(),
            transfer_from_spec(*old(self), *final(self), caller, from, to, amount, r),
    {
        let current_allowance = self.allowance(from, caller);
        if current_allowance < amount {
            return Err(Error::InsufficientAllowance);
        }
        match self.transfer_from_to(from, to, amount) {
            Err(e) => Err(e),
            Ok(()) => {
                let ghost mid = *self;
                self.allowances.set(
                    AccountPair { owner: from, spender: caller },
                    current_allowance - amount,
                );
                proof {
                    let pre = *old(self);
                    assert forall|x: AccountId| #![trigger self.spec_balance_of(x)]
                        self.spec_balance_of(x) == mid.spec_balance_of(x) by {}
                    assert(self.spec_events() == mid.spec_events());
                    assert forall|o: AccountId, s: AccountId|
                        #![trigger self.spec_allowance(o, s)]
                        self.spec_allowance(o, s) == (if o == from && s == caller {
                            pre.spec_allowance(from, caller) - amount
                        } else {
                            pre.spec_allowance(o, s) as int
                        }) by {
                        assert(mid.spec_allowance(o, s) == pre.spec_allowance(o, s));
                    }
                }
                Ok(())
            },
        }
    }

    /// Every account's balance is bounded by the total supply.
    pub proof fn lemma_balance_le_supply(self, account: AccountId)
        requires
            self.wf(),
        ensures
            self.spec_balance_of(account) <= self.spec_total_supply(),
    {
        self.balances.lemma_get_le_total(account);
    }

    /// The shared movement logic of `transfer` and `transfer_from`:
    /// debits `from`, credits `to`, appends the transfer notification.
    fn transfer_from_to(&mut self, from: AccountId, to: AccountId, amount: u128) -> (r: Result<
        (),
        Error,
    >)
        requires
            old(self).wf(),
        ensures
            final(self).wf(),
            old(self).spec_balance_of(from) >= amount ==> r == Ok::<(), Error>(())
                && transfer_effect(*old(self), *final(self), from, to, amount),
            old(self).spec_balance_of(from) < amount ==> r == Err::<(), Error>(
                Error::InsufficientBalance,
            ) && *final(self) == *old(self),
    {
        let sender_balance = self.balances.get(from);
        if sender_balance < amount {
            return Err(Error::InsufficientBalance);
        }
        self.balances.set(from, sender_balance - amount);
        proof {
            // after the debit the sum of balances is total_supply - amount,
            // so crediting `to` cannot overflow the balance type
            self.balances.lemma_get_le_total(to);
        }
        let to_balance = self.balances.get(to);
        self.balances.set(to, to_balance + amount);
        self.events.push(Event::Transfer(Transfer {
            from: Some(from),
            to: Some(to),
            value: amount,
        }));
        Ok(())
    }
}

} // verus!
