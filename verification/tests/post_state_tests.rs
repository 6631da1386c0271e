use std::sync::Arc;

use delorean::accounts::AccountState;
use delorean::address::Address;
use delorean::blob::FixtureBlob;
use delorean::fixture::{FixtureAccount, TransactionFixture};
use delorean::message::{CompiledInstruction, MessageModel};
use delorean::mismatch::AccountMismatch;
use delorean::post_state::{
    committed_post_accounts_for_failed_tx, post_account_mismatches, post_account_shared_matches,
    rent_epochs_equivalent, return_data_matches, ReturnData, RENT_EXEMPT_RENT_EPOCH,
};
use delorean::result::ExecutionResult;
use delorean::synthetic::construct_instructions_account;

fn fa(key: u8, lamports: u64, data: Vec<u8>) -> FixtureAccount {
    FixtureAccount {
        pubkey: Address([key; 32]),
        owner: Address([200; 32]),
        lamports,
        rent_epoch: 9,
        flags: 0,
        data: FixtureBlob::Inline(data),
    }
}

fn state(lamports: u64, data: Vec<u8>) -> AccountState {
    AccountState { lamports, data, owner: Address([200; 32]), executable: false, rent_epoch: 9 }
}

fn fixture(pre: Vec<FixtureAccount>, post: Vec<FixtureAccount>) -> TransactionFixture {
    TransactionFixture {
        schema_version: 1,
        slot: 1,
        recent_blockhash: [0; 32],
        signature: [0; 64],
        client_version: vec![],
        enabled_features: vec![],
        lamports_per_signature: 5000,
        transaction: vec![],
        alt_writable: vec![],
        alt_readonly: vec![],
        pre_accounts: pre,
        programs: vec![],
        sysvars: Arc::new(vec![]),
        result: ExecutionResult {
            status: vec![],
            compute_units_consumed: 0,
            return_data_program: Address([0; 32]),
            return_data: vec![],
        },
        post_accounts: post,
    }
}

fn message() -> MessageModel {
    MessageModel {
        account_keys: vec![Address([1; 32]), Address([2; 32])],
        is_signer: vec![true, false],
        is_writable: vec![true, false],
        instructions: vec![CompiledInstruction { program_id_index: 1, accounts: vec![0], data: vec![1] }],
    }
}

#[test]
fn rent_epoch_equivalence() {
    let mut a = fa(1, 0, vec![]);
    assert!(rent_epochs_equivalent(&a, 9));
    assert!(!rent_epochs_equivalent(&a, 0));
    a.rent_epoch = RENT_EXEMPT_RENT_EPOCH;
    assert!(!rent_epochs_equivalent(&a, 0));
    a.flags = 1;
    assert!(rent_epochs_equivalent(&a, 0));
    assert!(rent_epochs_equivalent(&a, u64::MAX));
    assert!(!rent_epochs_equivalent(&a, 1));
}

#[test]
fn shared_account_comparison_reports_first_difference() {
    let a = fa(1, 10, vec![1, 2]);
    assert!(post_account_shared_matches(&a, &state(10, vec![1, 2])).is_ok());
    assert!(matches!(post_account_shared_matches(&a, &state(11, vec![0])),
        Err(AccountMismatch::Lamports { actual: 11, expected: 10, .. })));
    let mut s = state(10, vec![1, 2]);
    s.owner = Address([1; 32]);
    assert!(matches!(post_account_shared_matches(&a, &s), Err(AccountMismatch::Owner { .. })));
    let mut s = state(10, vec![1, 2]);
    s.rent_epoch = 3;
    assert!(matches!(post_account_shared_matches(&a, &s), Err(AccountMismatch::RentEpoch { actual: 3, expected: 9, .. })));
    let mut s = state(10, vec![1, 2]);
    s.executable = true;
    assert!(matches!(post_account_shared_matches(&a, &s),
        Err(AccountMismatch::Executable { actual: true, expected: false, .. })));
    match post_account_shared_matches(&a, &state(10, vec![1, 3])) {
        Err(AccountMismatch::Data { actual, expected, .. }) => {
            assert_eq!(actual, vec![1, 3]);
            assert_eq!(expected, vec![1, 2]);
        }
        other => panic!("unexpected {other:?}"),
    }
    let mut h = fa(1, 10, vec![]);
    h.data = FixtureBlob::Hash([0; 32]);
    assert!(matches!(post_account_shared_matches(&h, &state(0, vec![])), Err(AccountMismatch::HashBlob { .. })));
}

#[test]
fn failed_transaction_commits_pre_state_with_rollback_accounts() {
    let pre = vec![fa(1, 100, vec![1]), fa(2, 200, vec![2])];
    let rollback = vec![(Address([1; 32]), state(95, vec![1]))];
    let committed = committed_post_accounts_for_failed_tx(&pre, &rollback);
    assert_eq!(committed.len(), 2);
    assert_eq!(committed.get(&Address([1; 32])).unwrap().lamports, 95);
    assert_eq!(committed.get(&Address([2; 32])).unwrap().lamports, 200);
}

#[test]
fn no_post_accounts_means_nothing_to_check() {
    let f = fixture(vec![], vec![]);
    let (m, synthetic) = post_account_mismatches(&f, &vec![], false, &vec![], &message());
    assert!(m.is_empty());
    assert_eq!(synthetic, 0);
}

#[test]
fn successful_replay_compares_loaded_accounts() {
    let ix_key = Address(solana_sdk_ids::sysvar::instructions::id().to_bytes());
    let mut ix_post = fa(0, 0, vec![]);
    ix_post.pubkey = ix_key;
    let f = fixture(vec![], vec![fa(1, 10, vec![1]), ix_post, fa(3, 30, vec![3]), fa(4, 40, vec![])]);
    let loaded = vec![
        (Address([1; 32]), state(10, vec![1])),
        (ix_key, construct_instructions_account(&message())),
        (Address([3; 32]), state(31, vec![3])),
    ];
    let (m, synthetic) = post_account_mismatches(&f, &loaded, false, &vec![], &message());
    assert_eq!(synthetic, 1);
    assert_eq!(m.len(), 2);
    assert!(matches!(m[0], AccountMismatch::Lamports { actual: 31, expected: 30, .. }));
    assert!(matches!(m[1], AccountMismatch::NotCommitted { pubkey } if pubkey == Address([4; 32])));
}

#[test]
fn missing_synthetic_account_is_reported() {
    let ix_key = Address(solana_sdk_ids::sysvar::instructions::id().to_bytes());
    let mut ix_post = fa(0, 0, vec![]);
    ix_post.pubkey = ix_key;
    let f = fixture(vec![], vec![ix_post]);
    let (m, synthetic) = post_account_mismatches(&f, &vec![], false, &vec![], &message());
    assert_eq!(synthetic, 1);
    assert!(matches!(m[0], AccountMismatch::NotLoaded { pubkey } if pubkey == ix_key));
}

#[test]
fn failed_replay_compares_committed_state() {
    let pre = vec![fa(1, 100, vec![1]), fa(2, 200, vec![2])];
    let post = vec![fa(1, 95, vec![1]), fa(2, 200, vec![2])];
    let f = fixture(pre, post);
    // The loaded accounts hold the rolled-back writes; they are not what commits.
    let loaded = vec![(Address([2; 32]), state(1, vec![]))];
    let rollback = vec![(Address([1; 32]), state(95, vec![1]))];
    let (m, _) = post_account_mismatches(&f, &loaded, true, &rollback, &message());
    assert!(m.is_empty());
    let (m, _) = post_account_mismatches(&f, &loaded, false, &rollback, &message());
    assert_eq!(m.len(), 2);
}

#[test]
fn return_data_comparison() {
    let mut f = fixture(vec![], vec![]);
    assert!(return_data_matches(&f, &None));
    assert!(!return_data_matches(&f, &Some(ReturnData { program_id: Address([1; 32]), data: vec![] })));
    f.result.return_data_program = Address([1; 32]);
    f.result.return_data = vec![4, 2];
    assert!(!return_data_matches(&f, &None));
    assert!(return_data_matches(&f, &Some(ReturnData { program_id: Address([1; 32]), data: vec![4, 2] })));
    assert!(!return_data_matches(&f, &Some(ReturnData { program_id: Address([1; 32]), data: vec![4] })));
}

#[test]
fn captured_account_matches_its_own_bank_account() {
    for flags in [0u8, 1] {
        let mut a = fa(7, 123, vec![9, 8, 7]);
        a.flags = flags;
        let bank_account = delorean::bank::fixture_account_to_shared(&a);
        assert!(post_account_shared_matches(&a, &bank_account).is_ok());
    }
}

#[test]
fn faithful_successful_replay_reports_nothing() {
    let ix_key = Address(solana_sdk_ids::sysvar::instructions::id().to_bytes());
    let mut ix_post = fa(0, 0, vec![]);
    ix_post.pubkey = ix_key;
    let post = vec![fa(1, 10, vec![1]), ix_post, fa(2, 20, vec![2, 2])];
    let loaded: Vec<(Address, AccountState)> = vec![
        (Address([2; 32]), delorean::bank::fixture_account_to_shared(&post[2])),
        (ix_key, construct_instructions_account(&message())),
        (Address([1; 32]), delorean::bank::fixture_account_to_shared(&post[0])),
    ];
    let f = fixture(vec![], post);
    let (m, synthetic) = post_account_mismatches(&f, &loaded, false, &vec![], &message());
    assert!(m.is_empty());
    assert_eq!(synthetic, 1);
}
