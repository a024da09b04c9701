use lamport_splitter::account::Account;
use lamport_splitter::codec::{decode_amount, decode_counter, encode_counter};
use lamport_splitter::error::InstructionError;
use lamport_splitter::greeting::GREETING_FEE;
use lamport_splitter::ledger::{run_greeting, run_split};
use lamport_splitter::split::process_instruction;

fn test_account(key_byte: u8, lamports: u64, is_signer: bool) -> Account {
    Account {
        key: vec![key_byte; 32],
        owner: vec![0u8; 32],
        lamports,
        data: Vec::new(),
        is_signer,
        is_writable: true,
    }
}

fn system_id() -> Vec<u8> {
    vec![1u8; 32]
}

fn program_id() -> Vec<u8> {
    vec![9u8; 32]
}

fn split_accounts(payer_lamports: u64, payee_count: usize) -> Vec<Account> {
    let mut accounts = vec![
        test_account(0xAA, payer_lamports, true),
        Account {
            key: system_id(),
            owner: vec![0u8; 32],
            lamports: 1,
            data: Vec::new(),
            is_signer: false,
            is_writable: false,
        },
    ];
    for i in 0..payee_count {
        accounts.push(test_account(0x10 + i as u8, 100, false));
    }
    accounts
}

fn greeting_accounts(payer_lamports: u64, counter_data: Vec<u8>) -> Vec<Account> {
    vec![
        test_account(0xAA, payer_lamports, true),
        test_account(0xBB, 50, false),
        Account {
            key: vec![0xCC; 32],
            owner: program_id(),
            lamports: 5,
            data: counter_data,
            is_signer: false,
            is_writable: true,
        },
        Account {
            key: system_id(),
            owner: vec![0u8; 32],
            lamports: 1,
            data: Vec::new(),
            is_signer: false,
            is_writable: false,
        },
    ]
}

fn amount_bytes(amount: u64) -> Vec<u8> {
    amount.to_le_bytes().to_vec()
}

#[test]
fn split_one_billion_over_three_payees() {
    // Scenario: 1,000,000,000 over 3 payees: each receives 333,333,333 and
    // one unit remains undistributed with the payer.
    let mut accounts = split_accounts(2_000_000_000, 3);
    let r = run_split(&mut accounts, &amount_bytes(1_000_000_000), &system_id());
    assert_eq!(r, Ok(()));
    assert_eq!(accounts[0].lamports, 2_000_000_000 - 999_999_999);
    assert_eq!(accounts[1].lamports, 1);
    assert_eq!(accounts[2].lamports, 100 + 333_333_333);
    assert_eq!(accounts[3].lamports, 100 + 333_333_333);
    assert_eq!(accounts[4].lamports, 100 + 333_333_333);
}

#[test]
fn split_999_over_ten_payees() {
    // Scenario: 999 over 10 payees: each receives 99, 9 units stay put.
    let mut accounts = split_accounts(10_000, 10);
    let r = run_split(&mut accounts, &amount_bytes(999), &system_id());
    assert_eq!(r, Ok(()));
    assert_eq!(accounts[0].lamports, 10_000 - 990);
    for i in 0..10 {
        assert_eq!(accounts[2 + i].lamports, 100 + 99);
    }
}

#[test]
fn split_exact_division_leaves_no_remainder() {
    let mut accounts = split_accounts(1_000, 4);
    let r = run_split(&mut accounts, &amount_bytes(100), &system_id());
    assert_eq!(r, Ok(()));
    assert_eq!(accounts[0].lamports, 900);
    for i in 0..4 {
        assert_eq!(accounts[2 + i].lamports, 125);
    }
}

#[test]
fn split_requests_name_every_payee_in_order() {
    let accounts = split_accounts(1_000, 3);
    let reqs = process_instruction(&accounts, &amount_bytes(7), &system_id()).unwrap();
    assert_eq!(reqs.len(), 3);
    for (i, req) in reqs.iter().enumerate() {
        assert_eq!(req.from, 0);
        assert_eq!(req.to, 2 + i);
        assert_eq!(req.amount, 2);
    }
}

#[test]
fn split_with_no_payees_is_an_arity_failure() {
    let mut accounts = split_accounts(1_000, 0);
    let before: Vec<u64> = accounts.iter().map(|a| a.lamports).collect();
    let r = run_split(&mut accounts, &amount_bytes(100), &system_id());
    assert_eq!(r, Err(InstructionError::NotEnoughAccountKeys));
    let after: Vec<u64> = accounts.iter().map(|a| a.lamports).collect();
    assert_eq!(before, after);
}

#[test]
fn split_with_eleven_payees_is_an_arity_failure() {
    let mut accounts = split_accounts(1_000, 11);
    let r = run_split(&mut accounts, &amount_bytes(100), &system_id());
    assert_eq!(r, Err(InstructionError::NotEnoughAccountKeys));
}

#[test]
fn split_without_signature_is_refused() {
    let mut accounts = split_accounts(1_000, 3);
    accounts[0].is_signer = false;
    let r = run_split(&mut accounts, &amount_bytes(100), &system_id());
    assert_eq!(r, Err(InstructionError::MissingRequiredSignature));
}

#[test]
fn split_with_wrong_system_account_is_refused() {
    let mut accounts = split_accounts(1_000, 3);
    accounts[1].key = vec![2u8; 32];
    let r = run_split(&mut accounts, &amount_bytes(100), &system_id());
    assert_eq!(r, Err(InstructionError::IncorrectProgramId));
}

#[test]
fn split_with_short_payload_is_refused_untouched() {
    // Scenario: a payload of fewer than eight bytes cannot carry an amount;
    // the call aborts before any account is read or mutated.
    let mut accounts = split_accounts(1_000, 3);
    let before: Vec<u64> = accounts.iter().map(|a| a.lamports).collect();
    let r = run_split(&mut accounts, &vec![1u8, 2, 3], &system_id());
    assert_eq!(r, Err(InstructionError::InvalidInstructionData));
    let after: Vec<u64> = accounts.iter().map(|a| a.lamports).collect();
    assert_eq!(before, after);
}

#[test]
fn split_rejected_by_host_rolls_back_everything() {
    // The host refuses a transfer the payer cannot fund; the whole call
    // aborts and no balance moves at all.
    let mut accounts = split_accounts(10, 3);
    let before: Vec<u64> = accounts.iter().map(|a| a.lamports).collect();
    let r = run_split(&mut accounts, &amount_bytes(600), &system_id());
    assert_eq!(r, Err(InstructionError::TransferRejected));
    let after: Vec<u64> = accounts.iter().map(|a| a.lamports).collect();
    assert_eq!(before, after);
}

#[test]
fn split_payload_trailing_bytes_are_ignored() {
    let accounts = split_accounts(1_000, 2);
    let mut payload = amount_bytes(500);
    payload.push(0xFF);
    payload.push(0xFF);
    let reqs = process_instruction(&accounts, &payload, &system_id()).unwrap();
    assert_eq!(reqs.len(), 2);
    assert_eq!(reqs[0].amount, 250);
}

#[test]
fn greeting_two_calls_count_zero_one_two() {
    // Scenario: two consecutive greeting calls on a fresh zeroed record:
    // the counter reads 1 then 2, and each call moves exactly one fee.
    let mut accounts = greeting_accounts(5_000_000_000, vec![0u8; 4]);
    let first = run_greeting(&mut accounts, &program_id(), &system_id());
    assert_eq!(first, Ok(1));
    assert_eq!(accounts[2].data, vec![1u8, 0, 0, 0]);
    assert_eq!(accounts[0].lamports, 5_000_000_000 - GREETING_FEE);
    assert_eq!(accounts[1].lamports, 50 + GREETING_FEE);
    let second = run_greeting(&mut accounts, &program_id(), &system_id());
    assert_eq!(second, Ok(2));
    assert_eq!(accounts[2].data, vec![2u8, 0, 0, 0]);
    assert_eq!(accounts[0].lamports, 5_000_000_000 - 2 * GREETING_FEE);
    assert_eq!(accounts[1].lamports, 50 + 2 * GREETING_FEE);
}

#[test]
fn greeting_without_signature_is_refused() {
    let mut accounts = greeting_accounts(5_000_000_000, vec![0u8; 4]);
    accounts[0].is_signer = false;
    let r = run_greeting(&mut accounts, &program_id(), &system_id());
    assert_eq!(r, Err(InstructionError::MissingRequiredSignature));
}

#[test]
fn greeting_with_wrong_system_account_is_refused() {
    let mut accounts = greeting_accounts(5_000_000_000, vec![0u8; 4]);
    accounts[3].key = vec![3u8; 32];
    let r = run_greeting(&mut accounts, &program_id(), &system_id());
    assert_eq!(r, Err(InstructionError::IncorrectProgramId));
}

#[test]
fn greeting_with_foreign_owner_is_refused() {
    let mut accounts = greeting_accounts(5_000_000_000, vec![0u8; 4]);
    accounts[2].owner = vec![8u8; 32];
    let r = run_greeting(&mut accounts, &program_id(), &system_id());
    assert_eq!(r, Err(InstructionError::IncorrectProgramId));
}

#[test]
fn greeting_with_missing_accounts_is_refused() {
    let mut accounts = greeting_accounts(5_000_000_000, vec![0u8; 4]);
    accounts.pop();
    let r = run_greeting(&mut accounts, &program_id(), &system_id());
    assert_eq!(r, Err(InstructionError::NotEnoughAccountKeys));
}

#[test]
fn greeting_with_malformed_record_is_refused() {
    let mut accounts = greeting_accounts(5_000_000_000, vec![0u8; 3]);
    let r = run_greeting(&mut accounts, &program_id(), &system_id());
    assert_eq!(r, Err(InstructionError::StateDeserializationError));
    let mut wide = greeting_accounts(5_000_000_000, vec![0u8; 5]);
    let r2 = run_greeting(&mut wide, &program_id(), &system_id());
    assert_eq!(r2, Err(InstructionError::StateDeserializationError));
}

#[test]
fn greeting_at_counter_maximum_aborts_instead_of_wrapping() {
    // The documented overflow policy: a counter at the 32-bit maximum
    // aborts the call; it is never wrapped back to zero.
    let mut accounts = greeting_accounts(5_000_000_000, vec![0xFFu8; 4]);
    let r = run_greeting(&mut accounts, &program_id(), &system_id());
    assert_eq!(r, Err(InstructionError::CounterOverflow));
    assert_eq!(accounts[2].data, vec![0xFFu8; 4]);
}

#[test]
fn greeting_rejected_by_host_rolls_back_everything() {
    let mut accounts = greeting_accounts(GREETING_FEE - 1, vec![0u8; 4]);
    let r = run_greeting(&mut accounts, &program_id(), &system_id());
    assert_eq!(r, Err(InstructionError::TransferRejected));
    assert_eq!(accounts[0].lamports, GREETING_FEE - 1);
    assert_eq!(accounts[1].lamports, 50);
    assert_eq!(accounts[2].data, vec![0u8; 4]);
}

#[test]
fn greeting_five_calls_count_to_five() {
    let mut accounts = greeting_accounts(10 * GREETING_FEE, vec![0u8; 4]);
    for expected in 1u32..=5 {
        let r = run_greeting(&mut accounts, &program_id(), &system_id());
        assert_eq!(r, Ok(expected));
    }
    assert_eq!(accounts[2].data, vec![5u8, 0, 0, 0]);
    assert_eq!(accounts[0].lamports, 5 * GREETING_FEE);
    assert_eq!(accounts[1].lamports, 50 + 5 * GREETING_FEE);
}

#[test]
fn key_comparison_is_by_bytes() {
    let a = vec![1u8, 2, 3];
    let b = vec![1u8, 2, 3];
    let c = vec![1u8, 2, 4];
    let d = vec![1u8, 2];
    assert!(lamport_splitter::account::keys_equal(&a, &b));
    assert!(!lamport_splitter::account::keys_equal(&a, &c));
    assert!(!lamport_splitter::account::keys_equal(&a, &d));
}

#[test]
fn counter_record_round_trips() {
    let bytes = encode_counter(0x12345678);
    assert_eq!(bytes, vec![0x78u8, 0x56, 0x34, 0x12]);
    assert_eq!(decode_counter(&bytes), Ok(0x12345678));
    assert_eq!(decode_counter(&vec![0u8; 4]), Ok(0));
    assert_eq!(encode_counter(0), vec![0u8; 4]);
}

#[test]
fn counter_record_of_wrong_length_is_refused() {
    assert_eq!(
        decode_counter(&vec![1u8, 2, 3]),
        Err(InstructionError::StateDeserializationError)
    );
    assert_eq!(
        decode_counter(&vec![1u8, 2, 3, 4, 5]),
        Err(InstructionError::StateDeserializationError)
    );
    assert_eq!(
        decode_counter(&Vec::new()),
        Err(InstructionError::StateDeserializationError)
    );
}

#[test]
fn amount_field_is_little_endian() {
    assert_eq!(decode_amount(&amount_bytes(123_456_789)), Ok(123_456_789));
    assert_eq!(
        decode_amount(&vec![0x15u8, 0xCD, 0x5B, 0x07, 0, 0, 0, 0]),
        Ok(123_456_789)
    );
    assert_eq!(decode_amount(&vec![0xFFu8; 8]), Ok(u64::MAX));
    assert_eq!(
        decode_amount(&vec![1u8, 2, 3, 4, 5, 6, 7]),
        Err(InstructionError::InvalidInstructionData)
    );
}
