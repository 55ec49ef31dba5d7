use state_machine::system::Pallet;

#[test]
fn init_system() {
    let mut system = Pallet::new();

    system.inc_block_number();
    assert_eq!(system.block_number(), 1);

    system.inc_nonce(&"alice".to_string());
    assert_eq!(system.nonce(&"alice".to_string()), 1);
}

#[test]
fn block_number_counts_every_increment() {
    let mut system = Pallet::new();
    assert_eq!(system.block_number(), 0);

    for _ in 0..5 {
        system.inc_block_number();
    }

    assert_eq!(system.block_number(), 5);
}

#[test]
fn nonce_counts_attempts_per_account() {
    let mut system = Pallet::new();
    assert_eq!(system.nonce(&"alice".to_string()), 0);

    for _ in 0..3 {
        system.inc_nonce(&"alice".to_string());
    }
    system.inc_nonce(&"bob".to_string());

    assert_eq!(system.nonce(&"alice".to_string()), 3);
    assert_eq!(system.nonce(&"bob".to_string()), 1);
    assert_eq!(system.nonce(&"carol".to_string()), 0);
}
