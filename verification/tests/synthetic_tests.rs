use delorean::accounts::AccountState;
use delorean::address::Address;
use delorean::message::{decompile_instructions, CompiledInstruction, MessageModel};
use delorean::mismatch::AccountMismatch;
use delorean::synthetic::{
    classify, compare_shared_account_metadata, construct_instructions_account, validate_instructions_sysvar,
    validate_post_account, SyntheticAccountKind,
};
use solana_instruction::{AccountMeta, Instruction};
use solana_pubkey::Pubkey;

fn message() -> MessageModel {
    MessageModel {
        account_keys: vec![Address([1; 32]), Address([2; 32]), Address([3; 32])],
        is_signer: vec![true, false, false],
        is_writable: vec![true, true, false],
        instructions: vec![CompiledInstruction { program_id_index: 2, accounts: vec![0, 1], data: vec![5, 6, 7] }],
    }
}

#[test]
fn only_the_instructions_sysvar_is_synthetic() {
    let ix = Address(solana_sdk_ids::sysvar::instructions::id().to_bytes());
    assert_eq!(classify(&ix), Some(SyntheticAccountKind::InstructionsSysvar));
    assert_eq!(classify(&Address([1; 32])), None);
    assert_eq!(classify(&Address(solana_sdk_ids::sysvar::rent::id().to_bytes())), None);
}

#[test]
fn message_well_formedness() {
    assert!(message().check_wf());
    let mut bad = message();
    bad.instructions[0].accounts.push(3);
    assert!(!bad.check_wf());
    let mut bad = message();
    bad.is_signer.pop();
    assert!(!bad.check_wf());
}

#[test]
fn decompiled_instructions_resolve_keys() {
    let d = decompile_instructions(&message());
    assert_eq!(d.len(), 1);
    assert_eq!(d[0].program_id, Address([3; 32]));
    assert_eq!(d[0].accounts.len(), 2);
    assert_eq!(d[0].accounts[0].pubkey, Address([1; 32]));
    assert!(d[0].accounts[0].is_signer && d[0].accounts[0].is_writable);
    assert!(!d[0].accounts[1].is_signer && d[0].accounts[1].is_writable);
    assert_eq!(d[0].data, vec![5, 6, 7]);
}

#[test]
fn constructed_sysvar_matches_the_sdk_serialization() {
    let acct = construct_instructions_account(&message());
    let ix = Instruction {
        program_id: Pubkey::new_from_array([3; 32]),
        accounts: vec![
            AccountMeta::new(Pubkey::new_from_array([1; 32]), true),
            AccountMeta::new(Pubkey::new_from_array([2; 32]), false),
        ],
        data: vec![5, 6, 7],
    };
    let borrowed = vec![solana_instruction::BorrowedInstruction {
        program_id: &ix.program_id,
        accounts: ix
            .accounts
            .iter()
            .map(|m| solana_instruction::BorrowedAccountMeta {
                pubkey: &m.pubkey,
                is_signer: m.is_signer,
                is_writable: m.is_writable,
            })
            .collect(),
        data: &ix.data,
    }];
    assert_eq!(acct.data, solana_instructions_sysvar::construct_instructions_data(&borrowed));
    assert_eq!(acct.owner, Address(solana_sdk_ids::sysvar::id().to_bytes()));
    assert_eq!(acct.lamports, 0);
    assert!(!acct.executable);
    assert_eq!(&acct.data[acct.data.len() - 2..], &[0, 0]);
}

#[test]
fn constructed_sysvar_validates_and_ignores_current_index() {
    let m = message();
    let mut acct = construct_instructions_account(&m);
    assert!(validate_instructions_sysvar(&acct, &m).is_ok());
    let n = acct.data.len();
    acct.data[n - 1] = 1;
    acct.data[n - 2] = 0;
    assert!(validate_post_account(SyntheticAccountKind::InstructionsSysvar, &acct, &m).is_ok());
}

#[test]
fn sysvar_mismatches_are_reported_in_order() {
    let m = message();
    let good = construct_instructions_account(&m);
    let key = Address(solana_sdk_ids::sysvar::instructions::id().to_bytes());

    let mut a = good.duplicate();
    a.lamports = 3;
    a.owner = Address([8; 32]);
    assert!(matches!(validate_instructions_sysvar(&a, &m),
        Err(AccountMismatch::Lamports { pubkey, actual: 3, expected: 0 }) if pubkey == key));

    let mut a = good.duplicate();
    a.data.push(0);
    assert!(matches!(validate_instructions_sysvar(&a, &m), Err(AccountMismatch::DataLength { .. })));

    let mut a = good.duplicate();
    a.data[0] ^= 0xff;
    let prefix = good.data.len() - 2;
    assert!(matches!(validate_instructions_sysvar(&a, &m),
        Err(AccountMismatch::InstructionPayload { prefix_len, .. }) if prefix_len == prefix));
}

#[test]
fn metadata_comparison_order() {
    let key = Address([1; 32]);
    let base = AccountState { lamports: 1, data: vec![], owner: Address([2; 32]), executable: false, rent_epoch: 5 };
    assert!(compare_shared_account_metadata(key, &base, &base.duplicate()).is_ok());
    let mut other = base.duplicate();
    other.rent_epoch = 6;
    other.executable = true;
    assert!(matches!(compare_shared_account_metadata(key, &base, &other),
        Err(AccountMismatch::RentEpoch { actual: 5, expected: 6, .. })));
    other.rent_epoch = 5;
    assert!(matches!(compare_shared_account_metadata(key, &base, &other),
        Err(AccountMismatch::Executable { actual: false, expected: true, .. })));
    other.owner = Address([3; 32]);
    assert!(matches!(compare_shared_account_metadata(key, &base, &other), Err(AccountMismatch::Owner { .. })));
}
