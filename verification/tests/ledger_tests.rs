use mock_dai::{AccountId, Error, MockDai};

fn acct(id: u128) -> AccountId {
    AccountId { id }
}

#[test]
fn constructor_works() {
    let minter = acct(1);
    let mock_dai = MockDai::new(1_000_000, minter);
    assert_eq!(mock_dai.total_supply(), 1_000_000);
}

#[test]
fn balance_of_returns_correct_values() {
    let deployer = acct(1);
    let mut mock_dai = MockDai::new(1_000_000, deployer);
    let bob = acct(2);
    let alice = acct(3);

    assert_eq!(mock_dai.balance_of(bob), 0);

    mock_dai.transfer(deployer, bob, 500).unwrap();

    assert_eq!(mock_dai.balance_of(bob), 500);
    assert_eq!(mock_dai.balance_of(alice), 0);
}

#[test]
fn do_an_approval_check() {
    let deployer = acct(1);
    let mock_dai = MockDai::new(1_000_000, deployer);

    let bob = acct(2);
    let alice = acct(3);

    assert_eq!(mock_dai.allowance(bob, alice), 0);
}

#[test]
fn construction_credits_minter_only() {
    let minter = acct(7);
    let other = acct(8);
    let ledger = MockDai::new(123_456, minter);
    assert_eq!(ledger.total_supply(), 123_456);
    assert_eq!(ledger.balance_of(minter), 123_456);
    assert_eq!(ledger.balance_of(other), 0);
}

#[test]
fn conservation_across_operations() {
    let a = acct(1);
    let b = acct(2);
    let c = acct(3);
    let mut ledger = MockDai::new(1_000, a);

    ledger.transfer(a, b, 400).unwrap();
    ledger.transfer(b, c, 150).unwrap();
    ledger.approve(c, a, 100).unwrap();
    ledger.transfer_from(a, c, b, 50).unwrap();
    let _ = ledger.transfer(c, a, 9_999);

    let sum = ledger.balance_of(a) + ledger.balance_of(b) + ledger.balance_of(c);
    assert_eq!(sum, ledger.total_supply());
}

#[test]
fn failed_transfer_changes_nothing() {
    let a = acct(1);
    let b = acct(2);
    let mut ledger = MockDai::new(100, a);

    let r = ledger.transfer(a, b, 101);
    assert_eq!(r, Err(Error::InsufficientBalance));
    assert_eq!(ledger.balance_of(a), 100);
    assert_eq!(ledger.balance_of(b), 0);
}

#[test]
fn approve_overwrites_previous_allowance() {
    let o = acct(1);
    let s = acct(2);
    let mut ledger = MockDai::new(1_000, o);

    ledger.approve(o, s, 100).unwrap();
    ledger.approve(o, s, 30).unwrap();
    assert_eq!(ledger.allowance(o, s), 30);

    ledger.approve(o, s, 500).unwrap();
    assert_eq!(ledger.allowance(o, s), 500);
}

#[test]
fn delegated_spend_decrements_exactly() {
    let o = acct(1);
    let s = acct(2);
    let r = acct(3);
    let mut ledger = MockDai::new(1_000, o);

    ledger.approve(o, s, 100).unwrap();
    ledger.transfer_from(s, o, r, 40).unwrap();

    assert_eq!(ledger.allowance(o, s), 60);
    assert_eq!(ledger.balance_of(o), 960);
    assert_eq!(ledger.balance_of(r), 40);
}

#[test]
fn insufficient_allowance_blocks_spend() {
    let o = acct(1);
    let s = acct(2);
    let r = acct(3);
    let mut ledger = MockDai::new(1_000, o);

    ledger.approve(o, s, 10).unwrap();
    let result = ledger.transfer_from(s, o, r, 50);

    assert_eq!(result, Err(Error::InsufficientAllowance));
    assert_eq!(ledger.balance_of(o), 1_000);
    assert_eq!(ledger.balance_of(r), 0);
    assert_eq!(ledger.allowance(o, s), 10);
}

#[test]
fn insufficient_balance_keeps_allowance() {
    let o = acct(1);
    let s = acct(2);
    let r = acct(3);
    let minter = acct(9);
    let mut ledger = MockDai::new(1_000, minter);
    ledger.transfer(minter, o, 30).unwrap();

    ledger.approve(o, s, 100).unwrap();
    let result = ledger.transfer_from(s, o, r, 50);

    assert_eq!(result, Err(Error::InsufficientBalance));
    assert_eq!(ledger.allowance(o, s), 100);
    assert_eq!(ledger.balance_of(o), 30);
    assert_eq!(ledger.balance_of(r), 0);
}

#[test]
fn allowance_checked_before_balance() {
    let o = acct(1);
    let s = acct(2);
    let r = acct(3);
    let minter = acct(9);
    let mut ledger = MockDai::new(1_000, minter);

    // both the allowance and the balance are insufficient: the allowance
    // error is the one surfaced
    let result = ledger.transfer_from(s, o, r, 50);
    assert_eq!(result, Err(Error::InsufficientAllowance));
}

#[test]
fn self_transfer_is_a_noop() {
    let a = acct(1);
    let mut ledger = MockDai::new(500, a);

    ledger.transfer(a, a, 200).unwrap();
    assert_eq!(ledger.balance_of(a), 500);
}

#[test]
fn defaults_are_zero() {
    let minter = acct(1);
    let ledger = MockDai::new(42, minter);
    assert_eq!(ledger.balance_of(acct(77)), 0);
    assert_eq!(ledger.allowance(acct(77), acct(78)), 0);
    assert_eq!(ledger.allowance(minter, minter), 0);
}

#[test]
fn zero_amount_operations() {
    let a = acct(1);
    let b = acct(2);
    let mut ledger = MockDai::new(100, a);

    ledger.transfer(a, b, 0).unwrap();
    assert_eq!(ledger.balance_of(a), 100);
    assert_eq!(ledger.balance_of(b), 0);

    // an account that holds nothing can still send nothing
    ledger.transfer(b, a, 0).unwrap();

    ledger.approve(a, b, 0).unwrap();
    ledger.transfer_from(b, a, b, 0).unwrap();
    assert_eq!(ledger.allowance(a, b), 0);
    assert_eq!(ledger.balance_of(a), 100);
}

#[test]
fn whole_balance_can_move() {
    let a = acct(1);
    let b = acct(2);
    let mut ledger = MockDai::new(100, a);

    ledger.transfer(a, b, 100).unwrap();
    assert_eq!(ledger.balance_of(a), 0);
    assert_eq!(ledger.balance_of(b), 100);
}

#[test]
fn largest_supply_moves_without_overflow() {
    let a = acct(1);
    let b = acct(2);
    let mut ledger = MockDai::new(u128::MAX, a);

    ledger.transfer(a, b, u128::MAX).unwrap();
    assert_eq!(ledger.balance_of(a), 0);
    assert_eq!(ledger.balance_of(b), u128::MAX);

    ledger.transfer(b, a, 1).unwrap();
    assert_eq!(ledger.balance_of(a), 1);
    assert_eq!(ledger.balance_of(b), u128::MAX - 1);
}
