use std::sync::Arc;

use delorean::accounts::{AccountState, AccountStore};
use delorean::address::Address;
use delorean::bank::{
    build_loader_v3_programdata_account, build_mock_bank, builtin_programs, fixture_account_to_shared,
    install_builtin_account, BuiltinEntry,
};
use delorean::blob::FixtureBlob;
use delorean::fixture::{FixtureAccount, FixtureProgramData, FixtureSysvar, TransactionFixture};
use delorean::rent::Rent;
use delorean::result::ExecutionResult;

fn fixture_account(key: u8, flags: u8, data: Vec<u8>) -> FixtureAccount {
    FixtureAccount {
        pubkey: Address([key; 32]),
        owner: Address([200; 32]),
        lamports: 1000 + key as u64,
        rent_epoch: 4,
        flags,
        data: FixtureBlob::Inline(data),
    }
}

fn fixture(pre: Vec<FixtureAccount>, sysvars: Vec<FixtureSysvar>, programs: Vec<FixtureProgramData>) -> TransactionFixture {
    TransactionFixture {
        schema_version: 1,
        slot: 10,
        recent_blockhash: [0; 32],
        signature: [0; 64],
        client_version: vec![],
        enabled_features: vec![],
        lamports_per_signature: 5000,
        transaction: vec![],
        alt_writable: vec![],
        alt_readonly: vec![],
        pre_accounts: pre,
        programs,
        sysvars: Arc::new(sysvars),
        result: ExecutionResult {
            status: vec![],
            compute_units_consumed: 0,
            return_data_program: Address([0; 32]),
            return_data: vec![],
        },
        post_accounts: vec![],
    }
}

#[test]
fn fixture_account_becomes_bank_account() {
    let a = fixture_account(1, 1, vec![5, 6]);
    let s = fixture_account_to_shared(&a);
    assert_eq!(s.lamports, 1001);
    assert_eq!(s.data, vec![5, 6]);
    assert_eq!(s.owner, Address([200; 32]));
    assert!(s.executable);
    assert_eq!(s.rent_epoch, 4);
    assert!(!fixture_account_to_shared(&fixture_account(2, 0, vec![])).executable);
}

#[test]
fn mock_bank_holds_accounts_sysvars_and_programdata() {
    let program = Address([30; 32]);
    let f = fixture(
        vec![fixture_account(1, 0, vec![1]), fixture_account(2, 0, vec![2])],
        vec![FixtureSysvar { sysvar_id: Address([40; 32]), data: vec![9, 9] }],
        vec![FixtureProgramData { program_id: program, programdata: FixtureBlob::Inline(vec![7; 10]) }],
    );
    let bank = build_mock_bank(&f);
    assert_eq!(bank.len(), 4);
    assert_eq!(bank.get(&Address([1; 32])).unwrap().data, vec![1]);
    let sv = bank.get(&Address([40; 32])).unwrap();
    assert_eq!(sv.lamports, 1);
    assert_eq!(sv.data, vec![9, 9]);
    assert_eq!(sv.owner, Address(solana_sdk_ids::sysvar::id().to_bytes()));
    let pd_key = solana_loader_v3_interface::get_program_data_address(&solana_pubkey::Pubkey::new_from_array([30; 32]));
    let pd = bank.get(&Address(pd_key.to_bytes())).unwrap();
    assert_eq!(pd.data, vec![7; 10]);
    assert_eq!(pd.lamports, Rent::default().minimum_balance(10));
    assert_eq!(pd.owner, Address(solana_sdk_ids::bpf_loader_upgradeable::id().to_bytes()));
}

#[test]
fn later_entries_replace_earlier_ones_in_the_bank() {
    let f = fixture(
        vec![fixture_account(1, 0, vec![1])],
        vec![FixtureSysvar { sysvar_id: Address([1; 32]), data: vec![8] }],
        vec![],
    );
    let bank = build_mock_bank(&f);
    assert_eq!(bank.len(), 1);
    assert_eq!(bank.get(&Address([1; 32])).unwrap().data, vec![8]);
}

#[test]
fn programdata_account_is_rent_exempt() {
    let p = FixtureProgramData { program_id: Address([3; 32]), programdata: FixtureBlob::Inline(vec![1, 2, 3]) };
    let a = build_loader_v3_programdata_account(&p);
    assert_eq!(a.lamports, (128 + 3) * 6960);
    assert_eq!(a.data, vec![1, 2, 3]);
    assert!(!a.executable);
}

#[test]
fn builtin_accounts_are_installed_unless_native_loader_owned() {
    let native = Address(solana_sdk_ids::native_loader::id().to_bytes());
    let mut store = AccountStore::new();
    install_builtin_account(&mut store, &Address([1; 32]), "system_program");
    let a = store.get(&Address([1; 32])).unwrap();
    assert_eq!(a.owner, native);
    assert!(a.executable);
    assert_eq!(a.lamports, 1);
    assert_eq!(a.data, b"system_program".to_vec());

    let existing = AccountState { lamports: 77, data: vec![1], owner: native, executable: true, rent_epoch: 0 };
    store.insert(Address([2; 32]), existing);
    install_builtin_account(&mut store, &Address([2; 32]), "other");
    assert_eq!(store.get(&Address([2; 32])).unwrap().lamports, 77);

    let foreign = AccountState { lamports: 5, data: vec![], owner: Address([9; 32]), executable: false, rent_epoch: 0 };
    store.insert(Address([3; 32]), foreign);
    install_builtin_account(&mut store, &Address([3; 32]), "x");
    assert_eq!(store.get(&Address([3; 32])).unwrap().owner, native);
}

#[test]
fn builtin_table() {
    let b = builtin_programs();
    assert_eq!(b.len(), 5);
    assert_eq!(b[0].program_id, Address(solana_sdk_ids::system_program::id().to_bytes()));
    assert_eq!(b[0].name, "system_program");
    assert_eq!(b[0].entry, BuiltinEntry::SystemProgram);
    assert_eq!(b[1].program_id, Address(solana_sdk_ids::compute_budget::id().to_bytes()));
    assert_eq!(b[1].name, "compute_budget_program");
    assert_eq!(b[2].program_id, Address(solana_sdk_ids::bpf_loader_upgradeable::id().to_bytes()));
    assert_eq!(b[2].name, "solana_bpf_loader_upgradeable_program");
    assert_eq!(b[3].program_id, Address(solana_sdk_ids::bpf_loader::id().to_bytes()));
    assert_eq!(b[4].program_id, Address(solana_sdk_ids::bpf_loader_deprecated::id().to_bytes()));
    assert_eq!(b[4].name, "solana_bpf_loader_deprecated_program");
    assert!(b[2..].iter().all(|x| x.entry == BuiltinEntry::BpfLoader));
}
