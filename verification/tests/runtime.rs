use state_machine::balances;
use state_machine::support::{Block, Dispatch, ErrorKind, Extrinsic, Header};
use state_machine::{Runtime, RuntimeCall};

fn transfer_call(to: &str, amount: u128) -> RuntimeCall {
    RuntimeCall::Balances(balances::Call::Transfer { to: to.to_string(), amount })
}

#[test]
fn execute_block_one_transfer() {
    let mut runtime = Runtime::new();
    runtime.balances.set_balance(&"alice".to_string(), 100);

    let block = Block {
        header: Header { block_number: 1 },
        extrinsics: vec![Extrinsic {
            caller: "alice".to_string(),
            call: transfer_call("bob", 30),
        }],
    };

    assert_eq!(runtime.execute_block(block), Ok(()));

    assert_eq!(runtime.balances.balance(&"alice".to_string()), 70);
    assert_eq!(runtime.balances.balance(&"bob".to_string()), 30);
    assert_eq!(runtime.system.nonce(&"alice".to_string()), 1);
    assert_eq!(runtime.system.block_number(), 1);
}

#[test]
fn failed_operation_advances_the_block() {
    let mut runtime = Runtime::new();
    runtime.balances.set_balance(&"alice".to_string(), 100);

    let block_1 = Block {
        header: Header { block_number: 1 },
        extrinsics: vec![Extrinsic {
            caller: "alice".to_string(),
            call: transfer_call("bob", 30),
        }],
    };
    assert_eq!(runtime.execute_block(block_1), Ok(()));

    // The transfer inside this block fails for want of balance; the block
    // itself is still accepted and the chain still advances.
    let block_2 = Block {
        header: Header { block_number: 2 },
        extrinsics: vec![Extrinsic {
            caller: "alice".to_string(),
            call: transfer_call("bob", 1000),
        }],
    };
    assert_eq!(runtime.execute_block(block_2), Ok(()));

    assert_eq!(runtime.balances.balance(&"alice".to_string()), 70);
    assert_eq!(runtime.balances.balance(&"bob".to_string()), 30);
    assert_eq!(runtime.system.nonce(&"alice".to_string()), 2);
    assert_eq!(runtime.system.block_number(), 2);
}

#[test]
fn block_number_mismatch_rejects_the_block() {
    let mut runtime = Runtime::new();
    runtime.balances.set_balance(&"alice".to_string(), 100);

    let block = Block {
        header: Header { block_number: 2 },
        extrinsics: vec![Extrinsic {
            caller: "alice".to_string(),
            call: transfer_call("bob", 30),
        }],
    };

    assert_eq!(
        runtime.execute_block(block),
        Err(ErrorKind::BlockNumberMismatch)
    );

    // The block number advanced before validation; nothing else moved.
    assert_eq!(runtime.system.block_number(), 1);
    assert_eq!(runtime.balances.balance(&"alice".to_string()), 100);
    assert_eq!(runtime.balances.balance(&"bob".to_string()), 0);
    assert_eq!(runtime.system.nonce(&"alice".to_string()), 0);
}

#[test]
fn partial_block_progress() {
    let mut runtime = Runtime::new();
    runtime.balances.set_balance(&"alice".to_string(), 100);

    // The first operation fails (bob holds nothing); the second succeeds.
    let block = Block {
        header: Header { block_number: 1 },
        extrinsics: vec![
            Extrinsic {
                caller: "bob".to_string(),
                call: transfer_call("alice", 5),
            },
            Extrinsic {
                caller: "alice".to_string(),
                call: transfer_call("bob", 30),
            },
        ],
    };

    assert_eq!(runtime.execute_block(block), Ok(()));

    assert_eq!(runtime.system.nonce(&"bob".to_string()), 1);
    assert_eq!(runtime.system.nonce(&"alice".to_string()), 1);
    assert_eq!(runtime.balances.balance(&"alice".to_string()), 70);
    assert_eq!(runtime.balances.balance(&"bob".to_string()), 30);
    assert_eq!(runtime.system.block_number(), 1);
}

#[test]
fn dispatch_routes_to_balances() {
    let mut runtime = Runtime::new();
    runtime.balances.set_balance(&"alice".to_string(), 10);

    assert_eq!(
        runtime.dispatch("alice".to_string(), transfer_call("bob", 4)),
        Ok(())
    );
    assert_eq!(
        runtime.dispatch("alice".to_string(), transfer_call("bob", 100)),
        Err(ErrorKind::InsufficientBalance)
    );

    assert_eq!(runtime.balances.balance(&"alice".to_string()), 6);
    assert_eq!(runtime.balances.balance(&"bob".to_string()), 4);
}

#[test]
fn fresh_runtime_reads_empty() {
    let runtime = Runtime::new();

    assert_eq!(runtime.system.block_number(), 0);
    assert_eq!(runtime.system.nonce(&"alice".to_string()), 0);
    assert_eq!(runtime.balances.balance(&"alice".to_string()), 0);
}
