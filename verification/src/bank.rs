use vstd::prelude::*;
use crate::accounts::{AccountState, AccountStore, AccountView};
use crate::address::Address;
use crate::bytes::copy_bytes;
use crate::fixture::{FixtureAccount, FixtureProgramData, FixtureSysvar, TransactionFixture, FIXTURE_ACCOUNT_FLAG_EXECUTABLE};
use crate::ids::{
    bpf_loader_deprecated_id, bpf_loader_deprecated_key, bpf_loader_id, bpf_loader_key,
    bpf_loader_upgradeable_id, bpf_loader_upgradeable_key, compute_budget_id, compute_budget_key,
    native_loader_id, native_loader_key, system_program_id, system_program_key, sysvar_owner_id,
    sysvar_owner_key,
};
use crate::loader::{program_data_address, programdata_address_of};
use crate::rent::{default_minimum_balance, lemma_default_minimum_balance, Rent, MAX_PERMITTED_DATA_LENGTH};
use vstd::string::StringSliceAdditionalSpecFns;

verus! {

/// `m` with each `(key, account)` of `entries` inserted in order, so that a
/// later entry for a key replaces an earlier one.
pub open spec fn insert_all(m: Map<Seq<u8>, AccountView>, entries: Seq<(Seq<u8>, AccountView)>) -> Map<Seq<u8>, AccountView>
    decreases entries.len(),
{
    if entries.len() == 0 {
        m
    } else {
        insert_all(m, entries.drop_last()).insert(entries.last().0, entries.last().1)
    }
}

/// The bank account that a captured fixture account stands for.
pub open spec fn fixture_account_view(fa: FixtureAccount) -> AccountView {
    AccountView {
        lamports: fa.lamports,
        data: fa.data->Inline_0@,
        owner: fa.owner@,
        executable: fa.flags & FIXTURE_ACCOUNT_FLAG_EXECUTABLE != 0,
        rent_epoch: fa.rent_epoch,
    }
}

/// Every captured account holds its data inline.
pub open spec fn all_inline(accounts: Seq<FixtureAccount>) -> bool {
    forall|i: int| 0 <= i < accounts.len() ==> (#[trigger] accounts[i]).data is Inline
}

/// The bank entries for a list of captured accounts.
pub open spec fn fixture_entries(accounts: Seq<FixtureAccount>) -> Seq<(Seq<u8>, AccountView)> {
    Seq::new(accounts.len(), |i: int| (accounts[i].pubkey@, fixture_account_view(accounts[i])))
}

/// The bank account of a sysvar: its data, owned by the sysvar owner, one lamport.
pub open spec fn sysvar_view(sv: FixtureSysvar) -> AccountView {
    AccountView { lamports: 1, data: sv.data@, owner: sysvar_owner_key(), executable: false, rent_epoch: 0 }
}

pub open spec fn sysvar_entries(sysvars: Seq<FixtureSysvar>) -> Seq<(Seq<u8>, AccountView)> {
    Seq::new(sysvars.len(), |i: int| (sysvars[i].sysvar_id@, sysvar_view(sysvars[i])))
}

/// The program data account of an upgradeable program: owned by the
/// upgradeable loader and funded with the default rent-exempt minimum.
pub open spec fn programdata_view(p: FixtureProgramData) -> AccountView {
    AccountView {
        lamports: default_minimum_balance(p.programdata->Inline_0@.len() as int) as u64,
        data: p.programdata->Inline_0@,
        owner: bpf_loader_upgradeable_key(),
        executable: false,
        rent_epoch: 0,
    }
}

pub open spec fn program_entries(programs: Seq<FixtureProgramData>) -> Seq<(Seq<u8>, AccountView)> {
    Seq::new(programs.len(), |i: int| (programdata_address_of(programs[i].program_id@), programdata_view(programs[i])))
}

/// The programs of a fixture can be loaded: their data is inline and fits
/// the permitted account size.
pub open spec fn programs_loadable(programs: Seq<FixtureProgramData>) -> bool {
    forall|i: int| 0 <= i < programs.len() ==> {
        &&& (#[trigger] programs[i]).programdata is Inline
        &&& programs[i].programdata->Inline_0@.len() <= MAX_PERMITTED_DATA_LENGTH
    }
}

/// The bank account for a captured account whose data is inline.
pub fn fixture_account_to_shared(fa: &FixtureAccount) -> (r: AccountState)
    requires
        fa.data is Inline,
    ensures
        r@ == fixture_account_view(*fa),
        r.lamports == fa.lamports,
        r.data@ == fa.data->Inline_0@,
        r.owner == fa.owner,
        r.executable == (fa.flags & FIXTURE_ACCOUNT_FLAG_EXECUTABLE != 0),
        r.rent_epoch == fa.rent_epoch,
{
    AccountState {
        lamports: fa.lamports,
        data: copy_bytes(fa.data.expect_inline().as_slice()),
        owner: fa.owner,
        executable: fa.is_executable(),
        rent_epoch: fa.rent_epoch,
    }
}

/// Inserts the bank accounts of `accounts` into `store`, in order.
pub fn insert_fixture_accounts(store: &mut AccountStore, accounts: &Vec<FixtureAccount>)
    requires
        old(store).wf(),
        all_inline(accounts@),
    ensures
        final(store).wf(),
        final(store)@ == insert_all(old(store)@, fixture_entries(accounts@)),
{
    let ghost start = store@;
    let mut i: usize = 0;
    while i < accounts.len()
        invariant
            i <= accounts@.len(),
            store.wf(),
            all_inline(accounts@),
            store@ == insert_all(start, fixture_entries(accounts@).subrange(0, i as int)),
        decreases accounts@.len() - i,
    {
        let fa = &accounts[i];
        assert(fa.data is Inline);
        let account = fixture_account_to_shared(fa);
        store.insert(fa.pubkey, account);
        i = i + 1;
        assert(fixture_entries(accounts@).subrange(0, i as int).drop_last()
            =~= fixture_entries(accounts@).subrange(0, i - 1));
    }
    assert(fixture_entries(accounts@).subrange(0, accounts@.len() as int) =~= fixture_entries(accounts@));
}

/// The bank that a fixture describes: its pre-execution accounts, then its
/// sysvars, then the program data accounts of its upgradeable programs.
pub fn build_mock_bank(f: &TransactionFixture) -> (r: AccountStore)
    requires
        all_inline(f.pre_accounts@),
        programs_loadable(f.programs@),
    ensures
        r.wf(),
        r@ == insert_all(
            insert_all(
                insert_all(Map::empty(), fixture_entries(f.pre_accounts@)),
                sysvar_entries(f.sysvars@),
            ),
            program_entries(f.programs@),
        ),
{
    let mut store = AccountStore::new();
    insert_fixture_accounts(&mut store, &f.pre_accounts);

    let ghost after_pre = store@;
    let sysvars: &Vec<FixtureSysvar> = &f.sysvars;
    let owner = sysvar_owner_id();
    let mut i: usize = 0;
    while i < sysvars.len()
        invariant
            i <= sysvars@.len(),
            store.wf(),
            owner@ == sysvar_owner_key(),
            store@ == insert_all(after_pre, sysvar_entries(sysvars@).subrange(0, i as int)),
        decreases sysvars@.len() - i,
    {
        let sv = &sysvars[i];
        let mut acct = AccountState::empty();
        acct.data = copy_bytes(sv.data.as_slice());
        acct.owner = owner;
        acct.lamports = 1;
        store.insert(sv.sysvar_id, acct);
        i = i + 1;
        assert(sysvar_entries(sysvars@).subrange(0, i as int).drop_last()
            =~= sysvar_entries(sysvars@).subrange(0, i - 1));
    }
    assert(sysvar_entries(sysvars@).subrange(0, sysvars@.len() as int) =~= sysvar_entries(sysvars@));

    let ghost after_sysvars = store@;
    let mut i: usize = 0;
    while i < f.programs.len()
        invariant
            i <= f.programs@.len(),
            store.wf(),
            programs_loadable(f.programs@),
            store@ == insert_all(after_sysvars, program_entries(f.programs@).subrange(0, i as int)),
        decreases f.programs@.len() - i,
    {
        let prog = &f.programs[i];
        assert(prog.programdata is Inline);
        let account = build_loader_v3_programdata_account(prog);
        store.insert(program_data_address(&prog.program_id), account);
        i = i + 1;
        assert(program_entries(f.programs@).subrange(0, i as int).drop_last()
            =~= program_entries(f.programs@).subrange(0, i - 1));
    }
    assert(program_entries(f.programs@).subrange(0, f.programs@.len() as int)
        =~= program_entries(f.programs@));
    store
}

/// The program data account that holds an upgradeable program's data.
pub fn build_loader_v3_programdata_account(prog: &FixtureProgramData) -> (r: AccountState)
    requires
        prog.programdata is Inline,
        prog.programdata->Inline_0@.len() <= MAX_PERMITTED_DATA_LENGTH,
    ensures
        r@ == programdata_view(*prog),
        r.lamports == (128 + prog.programdata->Inline_0@.len()) * 6960,
        r.data@ == prog.programdata->Inline_0@,
        r.owner@ == bpf_loader_upgradeable_key(),
        !r.executable,
        r.rent_epoch == 0,
{
    let bytes = prog.programdata.expect_inline();
    let mut acct = AccountState::empty();
    acct.owner = bpf_loader_upgradeable_id();
    let default_rent = Rent::default();
    proof {
        lemma_default_minimum_balance(default_rent, bytes@.len() as int);
    }
    acct.lamports = default_rent.minimum_balance(bytes.len());
    acct.data = copy_bytes(bytes.as_slice());
    acct
}

/// The account of a builtin program: owned by the native loader,
/// executable, one lamport, with the builtin's name as data.
pub open spec fn builtin_view(name: Seq<u8>) -> AccountView {
    AccountView { lamports: 1, data: name, owner: native_loader_key(), executable: true, rent_epoch: 0 }
}

/// Installs the account of a builtin program, unless the bank already holds
/// a native-loader-owned account at its id, which is kept as it is.
pub fn install_builtin_account(store: &mut AccountStore, program_id: &Address, name: &str)
    requires
        old(store).wf(),
    ensures
        final(store).wf(),
        old(store)@.contains_key(program_id@) && old(store)@[program_id@].owner == native_loader_key()
            ==> final(store)@ == old(store)@,
        !(old(store)@.contains_key(program_id@) && old(store)@[program_id@].owner == native_loader_key())
            ==> final(store)@ == old(store)@.insert(program_id@, builtin_view(name.spec_bytes())),
        final(store)@.contains_key(program_id@),
        final(store)@.dom() == old(store)@.dom().insert(program_id@),
        forall|k: Seq<u8>| k != program_id@ && #[trigger] old(store)@.contains_key(k) ==> final(store)@[k] == old(store)@[k],
        !(old(store)@.contains_key(program_id@) && old(store)@[program_id@].owner == native_loader_key()) ==> {
            let a = final(store)@[program_id@];
            &&& a.lamports == 1
            &&& a.data == name.spec_bytes()
            &&& a.owner == native_loader_key()
            &&& a.executable
            &&& a.rent_epoch == 0
        },
{
    let native = native_loader_id();
    let preserve_existing = match store.get(program_id) {
        Some(acct) => acct.owner == native,
        None => false,
    };
    if !preserve_existing {
        let mut acct = AccountState::empty();
        acct.owner = native;
        acct.executable = true;
        acct.data = copy_bytes(name.as_bytes());
        acct.lamports = 1;
        store.insert(*program_id, acct);
    }
}

/// The program that a builtin's entry point runs.
#[derive(Clone, Copy, Debug, PartialEq, Eq, Structural)]
pub enum BuiltinEntry {
    SystemProgram,
    ComputeBudget,
    BpfLoader,
}

/// A builtin program of the replay bank: its id, the name its account
/// carries, and its entry point.
#[derive(Clone, Copy, Debug)]
pub struct Builtin {
    pub program_id: Address,
    pub name: &'static str,
    pub entry: BuiltinEntry,
}

/// The builtin programs that a replay registers, in order: the system
/// program, the compute budget program and the three BPF loaders
/// (upgradeable, current, deprecated).
pub fn builtin_programs() -> (r: Vec<Builtin>)
    ensures
        r@.len() == 5,
        r@[0].program_id@ == system_program_key() && r@[0].name@ == "system_program"@
            && r@[0].entry == BuiltinEntry::SystemProgram,
        r@[1].program_id@ == compute_budget_key() && r@[1].name@ == "compute_budget_program"@
            && r@[1].entry == BuiltinEntry::ComputeBudget,
        r@[2].program_id@ == bpf_loader_upgradeable_key() && r@[2].name@ == "solana_bpf_loader_upgradeable_program"@
            && r@[2].entry == BuiltinEntry::BpfLoader,
        r@[3].program_id@ == bpf_loader_key() && r@[3].name@ == "solana_bpf_loader_program"@
            && r@[3].entry == BuiltinEntry::BpfLoader,
        r@[4].program_id@ == bpf_loader_deprecated_key() && r@[4].name@ == "solana_bpf_loader_deprecated_program"@
            && r@[4].entry == BuiltinEntry::BpfLoader,
{
    let mut r: Vec<Builtin> = Vec::new();
    r.push(Builtin { program_id: system_program_id(), name: "system_program", entry: BuiltinEntry::SystemProgram });
    r.push(Builtin { program_id: compute_budget_id(), name: "compute_budget_program", entry: BuiltinEntry::ComputeBudget });
    r.push(Builtin {
        program_id: bpf_loader_upgradeable_id(),
        name: "solana_bpf_loader_upgradeable_program",
        entry: BuiltinEntry::BpfLoader,
    });
    r.push(Builtin { program_id: bpf_loader_id(), name: "solana_bpf_loader_program", entry: BuiltinEntry::BpfLoader });
    r.push(Builtin {
        program_id: bpf_loader_deprecated_id(),
        name: "solana_bpf_loader_deprecated_program",
        entry: BuiltinEntry::BpfLoader,
    });
    r
}

/// After a list of entries is inserted, an address that the list names holds
/// the account of its last entry in the list; any other address keeps what
/// it held before.
pub proof fn lemma_insert_all_lookup(m: Map<Seq<u8>, AccountView>, entries: Seq<(Seq<u8>, AccountView)>, key: Seq<u8>)
    ensures
        forall|i: int| 0 <= i < entries.len() && entries[i].0 == key
            && (forall|j: int| i < j < entries.len() ==> entries[j].0 != key)
            ==> insert_all(m, entries).contains_key(key) && insert_all(m, entries)[key] == entries[i].1,
        (forall|i: int| 0 <= i < entries.len() ==> entries[i].0 != key) ==> {
            &&& insert_all(m, entries).contains_key(key) == m.contains_key(key)
            &&& m.contains_key(key) ==> insert_all(m, entries)[key] == m[key]
        },
    decreases entries.len(),
{
    if entries.len() > 0 {
        let init = entries.drop_last();
        lemma_insert_all_lookup(m, init, key);
        assert forall|i: int| 0 <= i < entries.len() && entries[i].0 == key
            && (forall|j: int| i < j < entries.len() ==> entries[j].0 != key)
            implies insert_all(m, entries).contains_key(key) && insert_all(m, entries)[key] == entries[i].1 by {
            if i < entries.len() - 1 {
                assert(entries.last().0 != key);
                assert(init[i] == entries[i]);
                assert forall|j: int| i < j < init.len() implies init[j].0 != key by {
                    assert(init[j] == entries[j]);
                }
            }
        }
        if forall|i: int| 0 <= i < entries.len() ==> entries[i].0 != key {
            assert forall|i: int| 0 <= i < init.len() implies init[i].0 != key by {
                assert(init[i] == entries[i]);
            }
            assert(entries.last().0 != key);
        }
    }
}

/// After a list of entries is inserted, an address holds an account
/// exactly when it held one before or the list names it.
pub proof fn lemma_insert_all_keys(m: Map<Seq<u8>, AccountView>, entries: Seq<(Seq<u8>, AccountView)>, key: Seq<u8>)
    ensures
        insert_all(m, entries).contains_key(key)
            <==> m.contains_key(key) || exists|i: int| 0 <= i < entries.len() && entries[i].0 == key,
    decreases entries.len(),
{
    if entries.len() > 0 {
        let init = entries.drop_last();
        lemma_insert_all_keys(m, init, key);
        if exists|i: int| 0 <= i < init.len() && init[i].0 == key {
            let i = choose|i: int| 0 <= i < init.len() && init[i].0 == key;
            assert(entries[i] == init[i]);
        }
        if exists|i: int| 0 <= i < entries.len() && entries[i].0 == key {
            let i = choose|i: int| 0 <= i < entries.len() && entries[i].0 == key;
            if i < entries.len() - 1 {
                assert(init[i] == entries[i]);
            }
        }
    }
}

/// What the bank builder inserts, entry by entry: each captured account
/// at its address with its lamports, owner, executable flag, rent epoch and
/// inline data; each sysvar at its id with its data, one lamport and the
/// sysvar owner; each upgradeable program's data at its program data
/// address, owned by the upgradeable loader, funded with the default
/// rent-exempt minimum of 6960 lamports for each of its bytes and the 128
/// bytes of overhead.
pub proof fn lemma_bank_entries(
    accounts: Seq<FixtureAccount>,
    sysvars: Seq<FixtureSysvar>,
    programs: Seq<FixtureProgramData>,
)
    ensures
        fixture_entries(accounts).len() == accounts.len(),
        forall|i: int| 0 <= i < accounts.len() ==> {
            let (k, v) = #[trigger] fixture_entries(accounts)[i];
            &&& k == accounts[i].pubkey@
            &&& v.lamports == accounts[i].lamports
            &&& v.owner == accounts[i].owner@
            &&& v.executable == (accounts[i].flags & FIXTURE_ACCOUNT_FLAG_EXECUTABLE != 0)
            &&& v.rent_epoch == accounts[i].rent_epoch
            &&& v.data == accounts[i].data->Inline_0@
        },
        sysvar_entries(sysvars).len() == sysvars.len(),
        forall|i: int| 0 <= i < sysvars.len() ==> {
            let (k, v) = #[trigger] sysvar_entries(sysvars)[i];
            &&& k == sysvars[i].sysvar_id@
            &&& v.lamports == 1
            &&& v.data == sysvars[i].data@
            &&& v.owner == sysvar_owner_key()
            &&& !v.executable
            &&& v.rent_epoch == 0
        },
        program_entries(programs).len() == programs.len(),
        forall|i: int| 0 <= i < programs.len() ==> {
            let (k, v) = #[trigger] program_entries(programs)[i];
            &&& k == programdata_address_of(programs[i].program_id@)
            &&& v.data == programs[i].programdata->Inline_0@
            &&& v.owner == bpf_loader_upgradeable_key()
            &&& !v.executable
            &&& v.rent_epoch == 0
            &&& v.lamports == ((128 + programs[i].programdata->Inline_0@.len()) * 6960) as u64
        },
{
}

} // verus!
