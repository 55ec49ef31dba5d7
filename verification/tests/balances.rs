use state_machine::balances::Pallet;
use state_machine::support::ErrorKind;

#[test]
fn init_balances() {
    let mut balances = Pallet::new();

    assert_eq!(balances.balance(&"alice".to_string()), 0);

    balances.set_balance(&"alice".to_string(), 100);

    assert_eq!(balances.balance(&"alice".to_string()), 100);
    assert_eq!(balances.balance(&"bob".to_string()), 0);
}

#[test]
fn transfer_balance() {
    let mut balances = Pallet::new();

    assert_eq!(
        balances.transfer("alice".to_string(), "bob".to_string(), 10),
        Err(ErrorKind::InsufficientBalance)
    );

    balances.set_balance(&"alice".to_string(), 100);
    assert_eq!(
        balances.transfer("alice".to_string(), "bob".to_string(), 10),
        Ok(())
    );

    assert_eq!(balances.balance(&"alice".to_string()), 90);
    assert_eq!(balances.balance(&"bob".to_string()), 10);
}

#[test]
fn transfer_preserves_the_sum() {
    let mut balances = Pallet::new();
    balances.set_balance(&"alice".to_string(), 70);
    balances.set_balance(&"bob".to_string(), 30);

    assert_eq!(
        balances.transfer("alice".to_string(), "bob".to_string(), 25),
        Ok(())
    );

    assert_eq!(balances.balance(&"alice".to_string()), 45);
    assert_eq!(balances.balance(&"bob".to_string()), 55);
    assert_eq!(
        balances.balance(&"alice".to_string()) + balances.balance(&"bob".to_string()),
        100
    );
}

#[test]
fn transfer_insufficient_changes_nothing() {
    let mut balances = Pallet::new();
    balances.set_balance(&"alice".to_string(), 40);

    assert_eq!(
        balances.transfer("alice".to_string(), "bob".to_string(), 41),
        Err(ErrorKind::InsufficientBalance)
    );

    assert_eq!(balances.balance(&"alice".to_string()), 40);
    assert_eq!(balances.balance(&"bob".to_string()), 0);
}

#[test]
fn transfer_overflow_changes_nothing() {
    let mut balances = Pallet::new();
    balances.set_balance(&"alice".to_string(), 5);
    balances.set_balance(&"bob".to_string(), u128::MAX);

    assert_eq!(
        balances.transfer("alice".to_string(), "bob".to_string(), 1),
        Err(ErrorKind::BalanceOverflow)
    );

    assert_eq!(balances.balance(&"alice".to_string()), 5);
    assert_eq!(balances.balance(&"bob".to_string()), u128::MAX);
}

#[test]
fn transfer_whole_balance_to_the_limit() {
    let mut balances = Pallet::new();
    balances.set_balance(&"alice".to_string(), 5);
    balances.set_balance(&"bob".to_string(), u128::MAX - 5);

    assert_eq!(
        balances.transfer("alice".to_string(), "bob".to_string(), 5),
        Ok(())
    );

    assert_eq!(balances.balance(&"alice".to_string()), 0);
    assert_eq!(balances.balance(&"bob".to_string()), u128::MAX);
}

#[test]
fn self_transfer_nets_to_no_change() {
    let mut balances = Pallet::new();
    balances.set_balance(&"alice".to_string(), 100);

    assert_eq!(
        balances.transfer("alice".to_string(), "alice".to_string(), 40),
        Ok(())
    );

    assert_eq!(balances.balance(&"alice".to_string()), 100);
}

#[test]
fn self_transfer_checks_the_limit_up_front() {
    let mut balances = Pallet::new();
    balances.set_balance(&"alice".to_string(), u128::MAX);

    // Both checks read the balances before either write, so even a
    // self-transfer is held to the addition check on the old balance.
    assert_eq!(
        balances.transfer("alice".to_string(), "alice".to_string(), 1),
        Err(ErrorKind::BalanceOverflow)
    );

    assert_eq!(balances.balance(&"alice".to_string()), u128::MAX);
}

#[test]
fn set_balance_overwrites() {
    let mut balances = Pallet::new();
    balances.set_balance(&"alice".to_string(), 100);
    balances.set_balance(&"alice".to_string(), 7);

    assert_eq!(balances.balance(&"alice".to_string()), 7);
}
