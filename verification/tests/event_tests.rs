use mock_dai::{AccountId, Approval, Error, Event, MockDai, Transfer};

fn acct(id: u128) -> AccountId {
    AccountId { id }
}

#[test]
fn construction_emits_issuance() {
    let minter = acct(1);
    let ledger = MockDai::new(1_000, minter);

    let events = ledger.events();
    assert_eq!(events.len(), 1);
    assert_eq!(
        events[0],
        Event::Transfer(Transfer { from: None, to: Some(minter), value: 1_000 })
    );
}

#[test]
fn successful_operations_notify() {
    let a = acct(1);
    let b = acct(2);
    let c = acct(3);
    let mut ledger = MockDai::new(1_000, a);

    ledger.transfer(a, b, 250).unwrap();
    ledger.approve(b, c, 100).unwrap();
    ledger.transfer_from(c, b, a, 40).unwrap();

    let events = ledger.events();
    assert_eq!(events.len(), 4);
    assert_eq!(
        events[1],
        Event::Transfer(Transfer { from: Some(a), to: Some(b), value: 250 })
    );
    assert_eq!(
        events[2],
        Event::Approval(Approval { owner: b, spender: c, amount: 100 })
    );
    assert_eq!(
        events[3],
        Event::Transfer(Transfer { from: Some(b), to: Some(a), value: 40 })
    );
}

#[test]
fn failed_operations_notify_nothing() {
    let a = acct(1);
    let b = acct(2);
    let mut ledger = MockDai::new(10, a);

    assert_eq!(ledger.transfer(a, b, 11), Err(Error::InsufficientBalance));
    assert_eq!(ledger.transfer_from(b, a, b, 1), Err(Error::InsufficientAllowance));

    assert_eq!(ledger.events().len(), 1);
}
