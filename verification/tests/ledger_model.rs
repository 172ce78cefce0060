use solana_transfer_program::ledger::{InvocationError, Ledger, TransferRequest, SYSTEM_PROGRAM_ADDRESS};
use solana_transfer_program::TRANSFER_AMOUNT;

const ALICE: u64 = 11;
const BOB: u64 = 22;
const CAROL: u64 = 33;

fn funded_ledger(alice_balance: u64, bob_balance: u64) -> Ledger {
    let mut ledger = Ledger::new();
    assert!(ledger.open_account(ALICE, alice_balance));
    assert!(ledger.open_account(BOB, bob_balance));
    assert!(ledger.open_account(CAROL, 7_777));
    ledger
}

#[test]
fn funded_invocation_moves_fixed_amount() {
    let mut ledger = funded_ledger(5_000_000, 0);
    let accounts = vec![ALICE, BOB, SYSTEM_PROGRAM_ADDRESS];
    let result = ledger.process(99, &accounts, &Vec::new());
    assert_eq!(result, Ok(()));
    assert_eq!(ledger.balance(ALICE), Some(4_000_000));
    assert_eq!(ledger.balance(BOB), Some(1_000_000));
    assert_eq!(ledger.balance(CAROL), Some(7_777));
}

#[test]
fn short_list_fails_with_missing_account() {
    let mut ledger = funded_ledger(5_000_000, 0);
    let accounts = vec![ALICE, BOB];
    let result = ledger.process(99, &accounts, &Vec::new());
    assert_eq!(result, Err(InvocationError::MissingAccount));
    assert_eq!(ledger.balance(ALICE), Some(5_000_000));
    assert_eq!(ledger.balance(BOB), Some(0));
    assert_eq!(ledger.balance(CAROL), Some(7_777));
}

#[test]
fn empty_list_fails_with_missing_account() {
    let mut ledger = funded_ledger(5_000_000, 0);
    let result = ledger.process(99, &Vec::new(), &Vec::new());
    assert_eq!(result, Err(InvocationError::MissingAccount));
    assert_eq!(ledger.balance(ALICE), Some(5_000_000));
}

#[test]
fn repeated_missing_account_failure_is_stable() {
    let mut ledger = funded_ledger(5_000_000, 0);
    let accounts = vec![ALICE];
    for _ in 0..5 {
        let result = ledger.process(99, &accounts, &Vec::new());
        assert_eq!(result, Err(InvocationError::MissingAccount));
        assert_eq!(ledger.balance(ALICE), Some(5_000_000));
        assert_eq!(ledger.balance(BOB), Some(0));
        assert_eq!(ledger.balance(CAROL), Some(7_777));
    }
}

#[test]
fn underfunded_source_fails_and_moves_nothing() {
    let mut ledger = funded_ledger(500_000, 123);
    let accounts = vec![ALICE, BOB, SYSTEM_PROGRAM_ADDRESS];
    let result = ledger.process(99, &accounts, &Vec::new());
    assert_eq!(result, Err(InvocationError::DelegatedCallFailed));
    assert_eq!(ledger.balance(ALICE), Some(500_000));
    assert_eq!(ledger.balance(BOB), Some(123));
}

#[test]
fn wrong_sub_program_reference_fails_and_moves_nothing() {
    let mut ledger = funded_ledger(5_000_000, 0);
    let accounts = vec![ALICE, BOB, CAROL];
    let result = ledger.process(99, &accounts, &Vec::new());
    assert_eq!(result, Err(InvocationError::DelegatedCallFailed));
    assert_eq!(ledger.balance(ALICE), Some(5_000_000));
    assert_eq!(ledger.balance(BOB), Some(0));
}

#[test]
fn unknown_source_fails_and_moves_nothing() {
    let mut ledger = funded_ledger(5_000_000, 0);
    let accounts = vec![44, BOB, SYSTEM_PROGRAM_ADDRESS];
    let result = ledger.process(99, &accounts, &Vec::new());
    assert_eq!(result, Err(InvocationError::DelegatedCallFailed));
    assert_eq!(ledger.balance(BOB), Some(0));
}

#[test]
fn swapped_references_reverse_direction() {
    let mut forward = funded_ledger(5_000_000, 2_000_000);
    let mut backward = funded_ledger(5_000_000, 2_000_000);
    assert_eq!(forward.process(99, &vec![ALICE, BOB, SYSTEM_PROGRAM_ADDRESS], &Vec::new()), Ok(()));
    assert_eq!(backward.process(99, &vec![BOB, ALICE, SYSTEM_PROGRAM_ADDRESS], &Vec::new()), Ok(()));
    assert_eq!(forward.balance(ALICE), Some(4_000_000));
    assert_eq!(forward.balance(BOB), Some(3_000_000));
    assert_eq!(backward.balance(ALICE), Some(6_000_000));
    assert_eq!(backward.balance(BOB), Some(1_000_000));
}

#[test]
fn destination_overflow_fails_and_moves_nothing() {
    let mut ledger = funded_ledger(5_000_000, u64::MAX - 1);
    let accounts = vec![ALICE, BOB, SYSTEM_PROGRAM_ADDRESS];
    let result = ledger.process(99, &accounts, &Vec::new());
    assert_eq!(result, Err(InvocationError::DelegatedCallFailed));
    assert_eq!(ledger.balance(ALICE), Some(5_000_000));
    assert_eq!(ledger.balance(BOB), Some(u64::MAX - 1));
}

#[test]
fn self_transfer_succeeds_and_moves_nothing() {
    let mut ledger = funded_ledger(5_000_000, 0);
    let accounts = vec![ALICE, ALICE, SYSTEM_PROGRAM_ADDRESS];
    let result = ledger.process(99, &accounts, &Vec::new());
    assert_eq!(result, Ok(()));
    assert_eq!(ledger.balance(ALICE), Some(5_000_000));
}

#[test]
fn payload_and_caller_identity_are_ignored() {
    let mut plain = funded_ledger(5_000_000, 0);
    let mut decorated = funded_ledger(5_000_000, 0);
    let accounts = vec![ALICE, BOB, SYSTEM_PROGRAM_ADDRESS];
    assert_eq!(plain.process(0, &accounts, &Vec::new()), Ok(()));
    assert_eq!(decorated.process(255, &accounts, &vec![1, 2, 3, 4]), Ok(()));
    assert_eq!(plain.balance(ALICE), decorated.balance(ALICE));
    assert_eq!(plain.balance(BOB), decorated.balance(BOB));
}

#[test]
fn execute_transfer_checks_the_request_directly() {
    let mut ledger = funded_ledger(2_000_000, 0);
    let request = TransferRequest { source: ALICE, destination: BOB, amount: TRANSFER_AMOUNT };
    assert_eq!(ledger.execute_transfer(&request, SYSTEM_PROGRAM_ADDRESS), Ok(()));
    assert_eq!(ledger.balance(ALICE), Some(1_000_000));
    assert_eq!(ledger.balance(BOB), Some(1_000_000));
    assert_eq!(
        ledger.execute_transfer(&request, CAROL),
        Err(InvocationError::DelegatedCallFailed)
    );
    assert_eq!(ledger.balance(ALICE), Some(1_000_000));
}

#[test]
fn open_account_refuses_a_taken_address() {
    let mut ledger = Ledger::new();
    assert_eq!(ledger.len(), 0);
    assert!(ledger.open_account(ALICE, 10));
    assert!(!ledger.open_account(ALICE, 99));
    assert_eq!(ledger.len(), 1);
    assert_eq!(ledger.balance(ALICE), Some(10));
    assert_eq!(ledger.balance(BOB), None);
}
