use delorean::accounts::{AccountState, AccountStore};
use delorean::address::Address;
use delorean::rent::Rent;
use delorean::args::ProgramReplacement;
use delorean::loader::LoaderV3State;
use delorean::replace::{
    apply_program_replacements, program_state_target, programdata_header_fields, replace_program,
    replace_program_checked, ReplacementError, ReplacementRunError,
};
use solana_loader_v3_interface::state::UpgradeableLoaderState;
use solana_pubkey::Pubkey;

fn addr(p: Pubkey) -> Address {
    Address(p.to_bytes())
}

fn acct(owner: Address, lamports: u64, data: Vec<u8>, executable: bool) -> AccountState {
    AccountState { lamports, data, owner, executable, rent_epoch: 3 }
}

const PROGRAM: [u8; 32] = [11; 32];
const PROGRAMDATA: [u8; 32] = [12; 32];

fn program_account_data() -> Vec<u8> {
    bincode::serialize(&UpgradeableLoaderState::Program {
        programdata_address: Pubkey::new_from_array(PROGRAMDATA),
    })
    .unwrap()
}

fn programdata_header(slot: u64, authority: Option<[u8; 32]>) -> Vec<u8> {
    bincode::serialize(&UpgradeableLoaderState::ProgramData {
        slot,
        upgrade_authority_address: authority.map(Pubkey::new_from_array),
    })
    .unwrap()
}

#[test]
fn upgradeable_program_gets_new_programdata() {
    let loader = addr(solana_sdk_ids::bpf_loader_upgradeable::id());
    let mut store = AccountStore::new();
    store.insert(Address(PROGRAM), acct(loader, 1, program_account_data(), true));
    let mut old_data = programdata_header(77, Some([13; 32]));
    old_data.extend_from_slice(&[0xde, 0xad]);
    store.insert(Address(PROGRAMDATA), acct(loader, 5, old_data, false));

    let elf = vec![0x7f, b'E', b'L', b'F', 1, 2, 3];
    let rent = Rent::default();
    assert!(replace_program(&mut store, &rent, &Address(PROGRAM), &elf).is_ok());

    let pd = store.get(&Address(PROGRAMDATA)).unwrap();
    let mut expected = programdata_header(77, Some([13; 32]));
    assert_eq!(expected.len(), 45);
    expected.extend_from_slice(&elf);
    assert_eq!(pd.data, expected);
    assert_eq!(pd.lamports, rent.minimum_balance(expected.len()));
    assert_eq!(pd.owner, loader);
    assert_eq!(pd.rent_epoch, 3);
    // The program account itself is untouched.
    assert_eq!(store.get(&Address(PROGRAM)).unwrap().data, program_account_data());
}

#[test]
fn upgradeable_without_authority_keeps_shorter_header() {
    let loader = addr(solana_sdk_ids::bpf_loader_upgradeable::id());
    let mut store = AccountStore::new();
    store.insert(Address(PROGRAM), acct(loader, 1, program_account_data(), true));
    let mut old_data = programdata_header(5, None);
    old_data.resize(45, 0);
    old_data.extend_from_slice(&[1, 1, 1]);
    store.insert(Address(PROGRAMDATA), acct(loader, u64::MAX, old_data, false));
    assert!(replace_program(&mut store, &Rent::default(), &Address(PROGRAM), &[9]).is_ok());
    let pd = store.get(&Address(PROGRAMDATA)).unwrap();
    let mut expected = programdata_header(5, None);
    expected.push(9);
    assert_eq!(pd.data, expected);
    // A balance above the minimum is kept.
    assert_eq!(pd.lamports, u64::MAX);
}

#[test]
fn bpf_loader_program_data_becomes_the_elf() {
    let loader = addr(solana_sdk_ids::bpf_loader::id());
    let mut store = AccountStore::new();
    store.insert(Address(PROGRAM), acct(loader, 0, vec![1, 2, 3, 4], true));
    let rent = Rent::default();
    assert!(replace_program(&mut store, &rent, &Address(PROGRAM), &[5, 6]).is_ok());
    let p = store.get(&Address(PROGRAM)).unwrap();
    assert_eq!(p.data, vec![5, 6]);
    assert_eq!(p.lamports, rent.minimum_balance(2));
    assert!(p.executable);
}

#[test]
fn deprecated_loader_gets_at_least_one_lamport() {
    let loader = addr(solana_sdk_ids::bpf_loader_deprecated::id());
    let mut store = AccountStore::new();
    store.insert(Address(PROGRAM), acct(loader, 0, vec![], true));
    let free = Rent { lamports_per_byte: 0, exemption_threshold: 1.0f64.to_le_bytes(), burn_percent: 0 };
    assert!(replace_program(&mut store, &free, &Address(PROGRAM), &[1]).is_ok());
    assert_eq!(store.get(&Address(PROGRAM)).unwrap().lamports, 1);
}

#[test]
fn loader_v4_keeps_its_header() {
    let loader = addr(solana_sdk_ids::loader_v4::id());
    let mut store = AccountStore::new();
    let mut data = vec![4u8; 48];
    data.extend_from_slice(&[8, 8, 8]);
    store.insert(Address(PROGRAM), acct(loader, 10, data, true));
    assert!(replace_program(&mut store, &Rent::default(), &Address(PROGRAM), &[1, 2]).is_ok());
    let mut expected = vec![4u8; 48];
    expected.extend_from_slice(&[1, 2]);
    assert_eq!(store.get(&Address(PROGRAM)).unwrap().data, expected);
}

#[test]
fn loader_v4_account_too_small() {
    let loader = addr(solana_sdk_ids::loader_v4::id());
    let mut store = AccountStore::new();
    store.insert(Address(PROGRAM), acct(loader, 10, vec![0; 47], true));
    let r = replace_program(&mut store, &Rent::default(), &Address(PROGRAM), &[1]);
    assert!(matches!(r, Err(ReplacementError::LoaderV4AccountTooSmall { .. })));
    assert_eq!(store.get(&Address(PROGRAM)).unwrap().data, vec![0; 47]);
}

#[test]
fn missing_program_account() {
    let mut store = AccountStore::new();
    let r = replace_program(&mut store, &Rent::default(), &Address(PROGRAM), &[1]);
    assert!(matches!(r, Err(ReplacementError::MissingProgramAccount { program_id }) if program_id == Address(PROGRAM)));
    assert_eq!(store.len(), 0);
}

#[test]
fn unsupported_loader_is_refused() {
    let mut store = AccountStore::new();
    store.insert(Address(PROGRAM), acct(Address([99; 32]), 1, vec![], false));
    let r = replace_program(&mut store, &Rent::default(), &Address(PROGRAM), &[1]);
    assert!(matches!(r, Err(ReplacementError::UnsupportedLoader { owner, .. }) if owner == Address([99; 32])));
}

#[test]
fn upgradeable_errors() {
    let loader = addr(solana_sdk_ids::bpf_loader_upgradeable::id());
    let rent = Rent::default();

    let mut store = AccountStore::new();
    store.insert(Address(PROGRAM), acct(loader, 1, vec![9, 9], true));
    let r = replace_program(&mut store, &rent, &Address(PROGRAM), &[1]);
    assert!(matches!(r, Err(ReplacementError::UndecodableProgramAccount { .. })));

    let mut store = AccountStore::new();
    store.insert(Address(PROGRAM), acct(loader, 1, programdata_header(1, None), true));
    let r = replace_program(&mut store, &rent, &Address(PROGRAM), &[1]);
    assert!(matches!(r, Err(ReplacementError::NotProgramAccount { .. })));

    let mut store = AccountStore::new();
    store.insert(Address(PROGRAM), acct(loader, 1, program_account_data(), true));
    let r = replace_program(&mut store, &rent, &Address(PROGRAM), &[1]);
    assert!(matches!(r, Err(ReplacementError::MissingProgramData { programdata_address, .. })
        if programdata_address == Address(PROGRAMDATA)));

    store.insert(Address(PROGRAMDATA), acct(loader, 1, vec![3; 44], false));
    let r = replace_program(&mut store, &rent, &Address(PROGRAM), &[1]);
    assert!(matches!(r, Err(ReplacementError::ProgramDataTooSmall { .. })));

    store.insert(Address(PROGRAMDATA), acct(loader, 1, vec![0xff; 45], false));
    let r = replace_program(&mut store, &rent, &Address(PROGRAM), &[1]);
    assert!(matches!(r, Err(ReplacementError::UndecodableProgramDataHeader { .. })));

    let mut wrong = program_account_data();
    wrong.resize(45, 0);
    store.insert(Address(PROGRAMDATA), acct(loader, 1, wrong.clone(), false));
    let r = replace_program(&mut store, &rent, &Address(PROGRAM), &[1]);
    assert!(matches!(r, Err(ReplacementError::NotProgramData { .. })));
    assert_eq!(store.get(&Address(PROGRAMDATA)).unwrap().data, wrong);
}

#[test]
fn decoded_program_state_names_its_programdata() {
    let id = Address(PROGRAM);
    let pd = Address(PROGRAMDATA);
    assert!(matches!(program_state_target(&id, Some(LoaderV3State::Program { programdata_address: pd })), Ok(a) if a == pd));
    assert!(matches!(program_state_target(&id, None), Err(ReplacementError::UndecodableProgramAccount { .. })));
    assert!(matches!(
        program_state_target(&id, Some(LoaderV3State::Uninitialized)),
        Err(ReplacementError::NotProgramAccount { state: LoaderV3State::Uninitialized, .. })
    ));
    let header = LoaderV3State::ProgramData { slot: 9, upgrade_authority_address: Some(Address([1; 32])) };
    assert!(matches!(programdata_header_fields(&id, Some(header)), Ok((9, Some(a))) if a == Address([1; 32])));
    assert!(matches!(programdata_header_fields(&id, None), Err(ReplacementError::UndecodableProgramDataHeader { .. })));
    assert!(matches!(
        programdata_header_fields(&id, Some(LoaderV3State::Buffer { authority_address: None })),
        Err(ReplacementError::NotProgramData { .. })
    ));
}

#[test]
fn checked_replacement_refuses_oversized_data() {
    let loader = addr(solana_sdk_ids::bpf_loader::id());
    let mut store = AccountStore::new();
    store.insert(Address(PROGRAM), acct(loader, 0, vec![1], true));
    let big = vec![0u8; 10 * 1024 * 1024 + 1];
    assert!(replace_program_checked(&mut store, &Rent::default(), &Address(PROGRAM), &big).is_none());
    assert_eq!(store.get(&Address(PROGRAM)).unwrap().data, vec![1]);
    let fits = vec![0u8; 10 * 1024 * 1024];
    assert!(matches!(replace_program_checked(&mut store, &Rent::default(), &Address(PROGRAM), &fits), Some(Ok(()))));
    // Errors that come before the rent computation are reported whatever the size.
    let mut empty = AccountStore::new();
    assert!(matches!(
        replace_program_checked(&mut empty, &Rent::default(), &Address(PROGRAM), &big),
        Some(Err(ReplacementError::MissingProgramAccount { .. }))
    ));
}

#[test]
fn programdata_metadata_layout() {
    let mut with_key = vec![3u8, 0, 0, 0];
    with_key.extend_from_slice(&0x0102030405060708u64.to_le_bytes());
    with_key.push(1);
    with_key.extend_from_slice(&[13; 32]);
    assert_eq!(programdata_header(0x0102030405060708, Some([13; 32])), with_key);
    let mut without = vec![3u8, 0, 0, 0];
    without.extend_from_slice(&5u64.to_le_bytes());
    without.push(0);
    assert_eq!(programdata_header(5, None), without);
}

#[test]
fn replacement_run_applies_in_order_and_stops_at_first_failure() {
    let loader = addr(solana_sdk_ids::bpf_loader::id());
    let mut store = AccountStore::new();
    store.insert(Address([1; 32]), acct(loader, 0, vec![], true));
    store.insert(Address([3; 32]), acct(loader, 0, vec![], true));
    let reps = vec![
        ProgramReplacement { program_id: Address([1; 32]), elf_path: "one".to_string() },
        ProgramReplacement { program_id: Address([2; 32]), elf_path: "two".to_string() },
        ProgramReplacement { program_id: Address([3; 32]), elf_path: "three".to_string() },
    ];
    let read = |rep: &ProgramReplacement| -> Result<Vec<u8>, String> { Ok(rep.elf_path.as_bytes().to_vec()) };
    let r = apply_program_replacements(&mut store, &Rent::default(), &reps, read);
    assert!(matches!(r, Err(ReplacementRunError::Replacement(ReplacementError::MissingProgramAccount { program_id }))
        if program_id == Address([2; 32])));
    assert_eq!(store.get(&Address([1; 32])).unwrap().data, b"one".to_vec());
    assert!(store.get(&Address([3; 32])).unwrap().data.is_empty());

    let unreadable = |_: &ProgramReplacement| -> Result<Vec<u8>, String> { Err("no such file".to_string()) };
    let r = apply_program_replacements(&mut store, &Rent::default(), &reps, unreadable);
    assert!(matches!(r, Err(ReplacementRunError::ReadElf(m)) if m == "no such file"));
    assert_eq!(store.get(&Address([1; 32])).unwrap().data, b"one".to_vec());

    let ok = vec![reps[0].clone(), reps[2].clone()];
    let before3 = store.get(&Address([3; 32])).unwrap().lamports;
    assert!(apply_program_replacements(&mut store, &Rent::default(), &ok, read).is_ok());
    assert_eq!(store.get(&Address([3; 32])).unwrap().data, b"three".to_vec());
    // The run keeps the set of accounts and never lowers a balance.
    assert_eq!(store.len(), 2);
    assert!(store.get(&Address([3; 32])).unwrap().lamports >= before3);
    assert!(store.get(&Address([3; 32])).unwrap().executable);

    // A run of no replacements succeeds and changes nothing.
    let none: Vec<ProgramReplacement> = vec![];
    assert!(apply_program_replacements(&mut store, &Rent::default(), &none, read).is_ok());
    assert_eq!(store.len(), 2);
    assert_eq!(store.get(&Address([1; 32])).unwrap().data, b"one".to_vec());
}
