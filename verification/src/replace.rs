use vstd::prelude::*;
use crate::accounts::{AccountState, AccountStore, AccountView};
use crate::address::Address;
use crate::bytes::{append_bytes, copy_bytes, copy_prefix};
use crate::ids::{
    bpf_loader_deprecated_id, bpf_loader_deprecated_key, bpf_loader_id, bpf_loader_key,
    bpf_loader_upgradeable_id, bpf_loader_upgradeable_key, loader_v4_id, loader_v4_key,
};
use crate::loader::{
    decode_loader_v3_state, decoded_loader_v3_state, encode_programdata_metadata,
    lemma_programdata_metadata_len, loader_v4_program_data_offset, option_key, programdata_metadata_bytes,
    programdata_metadata_len,
    LoaderV3State, PROGRAMDATA_METADATA_LEN,
};
use crate::args::ProgramReplacement;
use crate::rent::Rent;

verus! {

/// Why a deployed program could not be replaced.
#[derive(Debug)]
pub enum ReplacementError {
    /// The bank holds no account at the program id.
    MissingProgramAccount { program_id: Address },
    /// The upgradeable-loader program account does not decode.
    UndecodableProgramAccount { program_id: Address },
    /// The upgradeable-loader account decodes to a state other than `Program`.
    NotProgramAccount { program_id: Address, state: LoaderV3State },
    /// The bank holds no account at the program's program data address.
    MissingProgramData { program_id: Address, programdata_address: Address },
    /// The program data account is shorter than its metadata.
    ProgramDataTooSmall { program_id: Address },
    /// The program data metadata does not decode.
    UndecodableProgramDataHeader { program_id: Address },
    /// The program data metadata decodes to a state other than `ProgramData`.
    NotProgramData { program_id: Address, state: LoaderV3State },
    /// The loader v4 account is shorter than its header.
    LoaderV4AccountTooSmall { program_id: Address },
    /// The program's owner is none of the supported loaders.
    UnsupportedLoader { program_id: Address, owner: Address },
}

/// `a` raised to at least `floor` lamports.
pub open spec fn at_least(a: u64, floor: int) -> int {
    if a >= floor { a as int } else { floor }
}

/// `old` with its lamports raised to at least `floor` and its data replaced.
pub open spec fn rewritten(old: AccountView, floor: int, data: Seq<u8>) -> AccountView {
    AccountView {
        lamports: at_least(old.lamports, floor) as u64,
        data: data,
        owner: old.owner,
        executable: old.executable,
        rent_epoch: old.rent_epoch,
    }
}

/// The rent-exempt minimum of `rent` for `len` bytes.
pub open spec fn min_balance(rent: Rent, len: int) -> int {
    rent.minimum_balance_of(len)->0
}

fn raise_and_rewrite(account: &AccountState, floor: u64, data: Vec<u8>) -> (r: AccountState)
    ensures
        r@ == rewritten(account@, floor as int, data@),
{
    AccountState {
        lamports: if account.lamports >= floor { account.lamports } else { floor },
        data,
        owner: account.owner,
        executable: account.executable,
        rent_epoch: account.rent_epoch,
    }
}

/// The program data address that the decoded state of an upgradeable
/// program account names: an error where it did not decode or is not a
/// `Program` account.
pub fn program_state_target(program_id: &Address, state: Option<LoaderV3State>) -> (r: Result<Address, ReplacementError>)
    ensures
        match state {
            None => r == Err::<Address, ReplacementError>(ReplacementError::UndecodableProgramAccount { program_id: *program_id }),
            Some(LoaderV3State::Program { programdata_address }) => r == Ok::<Address, ReplacementError>(programdata_address),
            Some(s) => r == Err::<Address, ReplacementError>(ReplacementError::NotProgramAccount { program_id: *program_id, state: s }),
        },
{
    match state {
        Some(LoaderV3State::Program { programdata_address }) => Ok(programdata_address),
        Some(other) => Err(ReplacementError::NotProgramAccount { program_id: *program_id, state: other }),
        None => Err(ReplacementError::UndecodableProgramAccount { program_id: *program_id }),
    }
}

/// The slot and upgrade authority that the decoded metadata of a program
/// data account holds: an error where it did not decode or is not
/// `ProgramData`.
pub fn programdata_header_fields(program_id: &Address, state: Option<LoaderV3State>) -> (r: Result<(u64, Option<Address>), ReplacementError>)
    ensures
        match state {
            None => r == Err::<(u64, Option<Address>), ReplacementError>(
                ReplacementError::UndecodableProgramDataHeader { program_id: *program_id }),
            Some(LoaderV3State::ProgramData { slot, upgrade_authority_address }) =>
                r == Ok::<(u64, Option<Address>), ReplacementError>((slot, upgrade_authority_address)),
            Some(s) => r == Err::<(u64, Option<Address>), ReplacementError>(
                ReplacementError::NotProgramData { program_id: *program_id, state: s }),
        },
{
    match state {
        Some(LoaderV3State::ProgramData { slot, upgrade_authority_address }) => Ok((slot, upgrade_authority_address)),
        Some(other) => Err(ReplacementError::NotProgramData { program_id: *program_id, state: other }),
        None => Err(ReplacementError::UndecodableProgramDataHeader { program_id: *program_id }),
    }
}

/// What replacing the code of `program_id` by `elf` gives, from the accounts
/// `before` to the accounts `after` with the result `r`: see `replace_program`.
pub open spec fn replacement_outcome(
    before: Map<Seq<u8>, AccountView>,
    after: Map<Seq<u8>, AccountView>,
    rent: Rent,
    program_id: Address,
    elf: Seq<u8>,
    r: Result<(), ReplacementError>,
) -> bool {
    &&& r is Err ==> after == before
    &&& !before.contains_key(program_id@)
        ==> r == Err::<(), ReplacementError>(ReplacementError::MissingProgramAccount { program_id: program_id })
    &&& before.contains_key(program_id@) ==> ({
        let accounts = before;
        let pa = accounts[program_id@];
        if pa.owner == bpf_loader_upgradeable_key() {
            match decoded_loader_v3_state(pa.data) {
                None => r == Err::<(), ReplacementError>(
                    ReplacementError::UndecodableProgramAccount { program_id: program_id }),
                Some(LoaderV3State::Program { programdata_address: pd }) => {
                    if !accounts.contains_key(pd@) {
                        r == Err::<(), ReplacementError>(ReplacementError::MissingProgramData {
                            program_id: program_id,
                            programdata_address: pd,
                        })
                    } else {
                        let pda = accounts[pd@];
                        if pda.data.len() < PROGRAMDATA_METADATA_LEN {
                            r == Err::<(), ReplacementError>(
                                ReplacementError::ProgramDataTooSmall { program_id: program_id })
                        } else {
                            match decoded_loader_v3_state(pda.data.subrange(0, PROGRAMDATA_METADATA_LEN as int)) {
                                None => r == Err::<(), ReplacementError>(
                                    ReplacementError::UndecodableProgramDataHeader { program_id: program_id }),
                                Some(LoaderV3State::ProgramData { slot, upgrade_authority_address: auth }) => {
                                    let data = programdata_metadata_bytes(slot, option_key(auth)) + elf;
                                    &&& r is Ok
                                    &&& after == accounts.insert(
                                        pd@, rewritten(pda, min_balance(rent, data.len() as int), data))
                                },
                                Some(s) => r == Err::<(), ReplacementError>(
                                    ReplacementError::NotProgramData { program_id: program_id, state: s }),
                            }
                        }
                    }
                },
                Some(s) => r == Err::<(), ReplacementError>(
                    ReplacementError::NotProgramAccount { program_id: program_id, state: s }),
            }
        } else if pa.owner == bpf_loader_key() || pa.owner == bpf_loader_deprecated_key() {
            let floor = if min_balance(rent, elf.len() as int) >= 1 { min_balance(rent, elf.len() as int) } else { 1 };
            &&& r is Ok
            &&& after == accounts.insert(program_id@, rewritten(pa, floor, elf))
        } else if pa.owner == loader_v4_key() {
            if pa.data.len() < 48 {
                r == Err::<(), ReplacementError>(ReplacementError::LoaderV4AccountTooSmall { program_id: program_id })
            } else {
                let data = pa.data.subrange(0, 48) + elf;
                &&& r is Ok
                &&& after == accounts.insert(program_id@, rewritten(pa, min_balance(rent, data.len() as int), data))
            }
        } else {
            r matches Err(ReplacementError::UnsupportedLoader { program_id: p, owner: o })
                && p == program_id && o@ == pa.owner
        }
    })
}

/// The data length whose rent-exempt minimum replacing `program_id` computes,
/// where the replacement gets that far: the new program data (metadata and
/// ELF) for the upgradeable loader, the ELF for the BPF loaders, the header
/// and the ELF for loader v4.
pub open spec fn replacement_len(accounts: Map<Seq<u8>, AccountView>, program_id: Seq<u8>, elf_len: int) -> Option<int> {
    if !accounts.contains_key(program_id) {
        None
    } else {
        let pa = accounts[program_id];
        if pa.owner == bpf_loader_upgradeable_key() {
            match decoded_loader_v3_state(pa.data) {
                Some(LoaderV3State::Program { programdata_address: pd }) => {
                    if accounts.contains_key(pd@) && accounts[pd@].data.len() >= PROGRAMDATA_METADATA_LEN {
                        match decoded_loader_v3_state(accounts[pd@].data.subrange(0, PROGRAMDATA_METADATA_LEN as int)) {
                            Some(LoaderV3State::ProgramData { upgrade_authority_address: auth, .. }) =>
                                Some(programdata_metadata_len(auth) + elf_len),
                            _ => None,
                        }
                    } else {
                        None
                    }
                },
                _ => None,
            }
        } else if pa.owner == bpf_loader_key() || pa.owner == bpf_loader_deprecated_key() {
            Some(elf_len)
        } else if pa.owner == loader_v4_key() {
            if pa.data.len() >= 48 { Some(48 + elf_len) } else { None }
        } else {
            None
        }
    }
}

/// The rent-exempt minimum that the replacement computes is defined. Where
/// it is not, `solana_rent::Rent::minimum_balance` panics.
pub open spec fn replacement_within_limits(accounts: Map<Seq<u8>, AccountView>, rent: Rent, program_id: Seq<u8>, elf_len: int) -> bool {
    replacement_len(accounts, program_id, elf_len) matches Some(n) ==> rent.minimum_balance_defined(n)
}

/// Replaces the deployed code of `program_id` in `store` by `elf`, as the
/// program's loader lays it out:
/// - upgradeable loader: the program account names its program data
///   account, whose metadata (slot, upgrade authority) is kept and followed
///   by `elf`;
/// - BPF loader (current or deprecated): the program account's data becomes
///   `elf`, with at least one lamport;
/// - loader v4: the account's 48-byte header is kept and followed by `elf`.
/// The rewritten account keeps its lamports or is raised to the rent-exempt
/// minimum of its new data length. On an error the store is unchanged.
pub fn replace_program(store: &mut AccountStore, rent: &Rent, program_id: &Address, elf: &[u8]) -> (r: Result<(), ReplacementError>)
    requires
        old(store).wf(),
        replacement_within_limits(old(store)@, *rent, program_id@, elf@.len() as int),
    ensures
        final(store).wf(),
        replacement_outcome(old(store)@, final(store)@, *rent, *program_id, elf@, r),
{
    let program_account = match store.get(program_id) {
        Some(a) => a.duplicate(),
        None => return Err(ReplacementError::MissingProgramAccount { program_id: *program_id }),
    };
    let owner = program_account.owner;

    if owner == bpf_loader_upgradeable_id() {
        let programdata_address = program_state_target(program_id, decode_loader_v3_state(program_account.data.as_slice()))?;
        let programdata_account = match store.get(&programdata_address) {
            Some(a) => a.duplicate(),
            None => {
                return Err(ReplacementError::MissingProgramData {
                    program_id: *program_id,
                    programdata_address,
                });
            },
        };
        if programdata_account.data.len() < PROGRAMDATA_METADATA_LEN {
            return Err(ReplacementError::ProgramDataTooSmall { program_id: *program_id });
        }
        let header = copy_prefix(programdata_account.data.as_slice(), PROGRAMDATA_METADATA_LEN);
        let (slot, upgrade_authority_address) = programdata_header_fields(program_id, decode_loader_v3_state(header.as_slice()))?;
        let mut new_programdata = match encode_programdata_metadata(slot, upgrade_authority_address) {
            Ok(b) => b,
            Err(_) => {
                proof {
                    assert(false);
                }
                unreached()
            },
        };
        proof {
            lemma_programdata_metadata_len(slot, upgrade_authority_address);
        }
        append_bytes(&mut new_programdata, elf);
        let min_lamports = rent.minimum_balance(new_programdata.len());
        let updated = raise_and_rewrite(&programdata_account, min_lamports, new_programdata);
        store.insert(programdata_address, updated);
        return Ok(());
    }

    if owner == bpf_loader_id() || owner == bpf_loader_deprecated_id() {
        let min_balance = rent.minimum_balance(elf.len());
        let min_lamports = if min_balance >= 1 { min_balance } else { 1 };
        let updated = raise_and_rewrite(&program_account, min_lamports, copy_bytes(elf));
        store.insert(*program_id, updated);
        return Ok(());
    }

    if owner == loader_v4_id() {
        let offset = loader_v4_program_data_offset();
        if program_account.data.len() < offset {
            return Err(ReplacementError::LoaderV4AccountTooSmall { program_id: *program_id });
        }
        let mut new_data = copy_prefix(program_account.data.as_slice(), offset);
        append_bytes(&mut new_data, elf);
        let min_lamports = rent.minimum_balance(new_data.len());
        let updated = raise_and_rewrite(&program_account, min_lamports, new_data);
        store.insert(*program_id, updated);
        return Ok(());
    }

    Err(ReplacementError::UnsupportedLoader { program_id: *program_id, owner })
}

/// The length that `replacement_len` gives, computed; a length beyond
/// `usize` saturates, which no rent-exempt minimum is defined for either.
fn replacement_len_of(store: &AccountStore, program_id: &Address, elf_len: usize) -> (r: Option<usize>)
    requires
        store.wf(),
    ensures
        match replacement_len(store@, program_id@, elf_len as int) {
            None => r is None,
            Some(n) => r matches Some(m) && (if n <= usize::MAX { m == n } else { m == usize::MAX }),
        },
{
    let program_account = match store.get(program_id) {
        Some(a) => a,
        None => return None,
    };
    let owner = program_account.owner;
    if owner == bpf_loader_upgradeable_id() {
        let programdata_address = match decode_loader_v3_state(program_account.data.as_slice()) {
            Some(LoaderV3State::Program { programdata_address }) => programdata_address,
            _ => return None,
        };
        let programdata_account = match store.get(&programdata_address) {
            Some(a) => a,
            None => return None,
        };
        if programdata_account.data.len() < PROGRAMDATA_METADATA_LEN {
            return None;
        }
        let header = copy_prefix(programdata_account.data.as_slice(), PROGRAMDATA_METADATA_LEN);
        match decode_loader_v3_state(header.as_slice()) {
            Some(LoaderV3State::ProgramData { upgrade_authority_address, .. }) => {
                let meta: usize = match upgrade_authority_address {
                    Some(_) => PROGRAMDATA_METADATA_LEN,
                    None => 13,
                };
                return Some(elf_len.saturating_add(meta));
            },
            _ => return None,
        }
    }
    if owner == bpf_loader_id() || owner == bpf_loader_deprecated_id() {
        return Some(elf_len);
    }
    if owner == loader_v4_id() {
        if program_account.data.len() < 48 {
            return None;
        }
        return Some(elf_len.saturating_add(48));
    }
    None
}

/// Replaces the deployed code of `program_id` as `replace_program` does,
/// where the rent-exempt minimum of the new data is defined; returns `None`,
/// leaving `store` as it was, where it is not (where the replacement would
/// panic on the rent computation).
pub fn replace_program_checked(store: &mut AccountStore, rent: &Rent, program_id: &Address, elf: &[u8]) -> (r: Option<Result<(), ReplacementError>>)
    requires
        old(store).wf(),
    ensures
        final(store).wf(),
        r is None <==> !replacement_within_limits(old(store)@, *rent, program_id@, elf@.len() as int),
        r is None ==> final(store)@ == old(store)@,
        r matches Some(res) ==> replacement_outcome(old(store)@, final(store)@, *rent, *program_id, elf@, res),
{
    let within = match replacement_len_of(store, program_id, elf.len()) {
        None => true,
        Some(n) => rent.minimum_balance_is_defined(n),
    };
    if !within {
        return None;
    }
    Some(replace_program(store, rent, program_id, elf))
}

/// Why a run of replacements stopped.
#[derive(Debug)]
pub enum ReplacementRunError<E> {
    /// The ELF of a replacement could not be read.
    ReadElf(E),
    /// The rent-exempt minimum of the new data is not defined, where
    /// `solana_rent::Rent::minimum_balance` panics.
    BeyondRentLimit { program_id: Address },
    /// The replacement itself failed.
    Replacement(ReplacementError),
}

/// `read` can give the ELF `elf` for `rep`.
pub open spec fn read_gives<F: Fn(&ProgramReplacement) -> Result<Vec<u8>, E>, E>(read: F, rep: ProgramReplacement, elf: Seq<u8>) -> bool {
    exists|v: Vec<u8>| v@ == elf && #[trigger] read.ensures((&rep,), Ok::<Vec<u8>, E>(v))
}

/// How the replacement `rep` fails on the store `s`: no program account
/// (checked before its ELF is read), an ELF that cannot be read, a rent
/// minimum beyond its limits, or a failed replacement, which leaves the
/// store as it was.
pub open spec fn step_fails<F: Fn(&ProgramReplacement) -> Result<Vec<u8>, E>, E>(
    s: Map<Seq<u8>, AccountView>,
    rent: Rent,
    rep: ProgramReplacement,
    read: F,
    r: Result<(), ReplacementRunError<E>>,
) -> bool {
    if !s.contains_key(rep.program_id@) {
        r == Err::<(), ReplacementRunError<E>>(ReplacementRunError::Replacement(
            ReplacementError::MissingProgramAccount { program_id: rep.program_id },
        ))
    } else {
        ||| r matches Err(ReplacementRunError::ReadElf(e)) && read.ensures((&rep,), Err::<Vec<u8>, E>(e))
        ||| exists|elf: Seq<u8>| #[trigger] read_gives(read, rep, elf) && {
            if !replacement_within_limits(s, rent, rep.program_id@, elf.len() as int) {
                r == Err::<(), ReplacementRunError<E>>(ReplacementRunError::BeyondRentLimit { program_id: rep.program_id })
            } else {
                r matches Err(ReplacementRunError::Replacement(re))
                    && replacement_outcome(s, s, rent, rep.program_id, elf, Err::<(), ReplacementError>(re))
            }
        }
    }
}

/// A run of the replacements `reps` from `before` that went through the
/// first `n` of them, the `i`-th taking the store from `stores[i]` to
/// `stores[i + 1]` with the ELF `elves[i]`, and ended in `after` with `r`:
/// `Ok` after all of them, or the failure of the next one.
pub open spec fn replacement_run<F: Fn(&ProgramReplacement) -> Result<Vec<u8>, E>, E>(
    before: Map<Seq<u8>, AccountView>,
    after: Map<Seq<u8>, AccountView>,
    rent: Rent,
    reps: Seq<ProgramReplacement>,
    read: F,
    r: Result<(), ReplacementRunError<E>>,
    stores: Seq<Map<Seq<u8>, AccountView>>,
    elves: Seq<Seq<u8>>,
    n: int,
) -> bool {
    &&& 0 <= n <= reps.len()
    &&& stores.len() == n + 1
    &&& elves.len() == n
    &&& stores[0] == before
    &&& stores[n] == after
    &&& forall|i: int| 0 <= i < n ==> {
        &&& read_gives(read, reps[i], #[trigger] elves[i])
        &&& replacement_within_limits(stores[i], rent, reps[i].program_id@, elves[i].len() as int)
        &&& replacement_outcome(stores[i], stores[i + 1], rent, reps[i].program_id, elves[i], Ok::<(), ReplacementError>(()))
    }
    &&& (n == reps.len()) == (r is Ok)
    &&& n < reps.len() ==> step_fails(after, rent, reps[n], read, r)
}

/// Replaces the programs of `replacements` in order, reading each one's ELF
/// with `read_elf` once its program account is known to exist; the first
/// failure ends the run, and the replacements before it stay applied.
pub fn apply_program_replacements<F: Fn(&ProgramReplacement) -> Result<Vec<u8>, E>, E>(
    store: &mut AccountStore,
    rent: &Rent,
    replacements: &Vec<ProgramReplacement>,
    read_elf: F,
) -> (r: Result<(), ReplacementRunError<E>>)
    requires
        old(store).wf(),
        forall|p: &ProgramReplacement| read_elf.requires((p,)),
    ensures
        final(store).wf(),
        exists|stores: Seq<Map<Seq<u8>, AccountView>>, elves: Seq<Seq<u8>>, n: int|
            #[trigger] replacement_run(old(store)@, final(store)@, *rent, replacements@, read_elf, r, stores, elves, n),
{
    let ghost start = store@;
    let ghost mut stores: Seq<Map<Seq<u8>, AccountView>> = seq![store@];
    let ghost mut elves: Seq<Seq<u8>> = seq![];
    let mut i: usize = 0;
    while i < replacements.len()
        invariant
            store.wf(),
            forall|p: &ProgramReplacement| read_elf.requires((p,)),
            i <= replacements@.len(),
            stores.len() == i + 1,
            elves.len() == i,
            start == old(store)@,
            stores[0] == start,
            stores[i as int] == store@,
            forall|k: int| 0 <= k < i ==> {
                &&& read_gives(read_elf, replacements@[k], #[trigger] elves[k])
                &&& replacement_within_limits(stores[k], *rent, replacements@[k].program_id@, elves[k].len() as int)
                &&& replacement_outcome(stores[k], stores[k + 1], *rent, replacements@[k].program_id, elves[k], Ok::<(), ReplacementError>(()))
            },
        decreases replacements@.len() - i,
    {
        let rep = &replacements[i];
        if !store.contains(&rep.program_id) {
            let r = Err(ReplacementRunError::Replacement(ReplacementError::MissingProgramAccount {
                program_id: rep.program_id,
            }));
            assert(replacement_run(start, store@, *rent, replacements@, read_elf, r, stores, elves, i as int));
            return r;
        }
        let elf = match read_elf(rep) {
            Ok(elf) => elf,
            Err(e) => {
                let r = Err(ReplacementRunError::ReadElf(e));
                assert(replacement_run(start, store@, *rent, replacements@, read_elf, r, stores, elves, i as int));
                return r;
            },
        };
        assert(read_gives(read_elf, *rep, elf@));
        let ghost s = store@;
        match replace_program_checked(store, rent, &rep.program_id, elf.as_slice()) {
            None => {
                let r = Err(ReplacementRunError::BeyondRentLimit { program_id: rep.program_id });
                assert(step_fails(store@, *rent, *rep, read_elf, r));
                assert(replacement_run(start, store@, *rent, replacements@, read_elf, r, stores, elves, i as int));
                return r;
            },
            Some(Err(e)) => {
                let ghost e2 = e;
                let r = Err(ReplacementRunError::Replacement(e));
                assert(step_fails(store@, *rent, *rep, read_elf, r));
                assert(replacement_run(start, store@, *rent, replacements@, read_elf, r, stores, elves, i as int));
                return r;
            },
            Some(Ok(())) => {},
        }
        proof {
            stores = stores.push(store@);
            elves = elves.push(elf@);
        }
        i = i + 1;
    }
    let r = Ok(());
    assert(replacement_run(start, store@, *rent, replacements@, read_elf, r, stores, elves, i as int));
    r
}

/// A replaced account keeps its owner, executable flag and rent epoch, holds
/// the new data, and its balance never falls: it keeps its lamports or is
/// raised to the floor.
pub proof fn lemma_rewrite_keeps_account(old: AccountView, floor: int, data: Seq<u8>)
    requires
        0 <= floor <= u64::MAX,
    ensures
        rewritten(old, floor, data).owner == old.owner,
        rewritten(old, floor, data).executable == old.executable,
        rewritten(old, floor, data).rent_epoch == old.rent_epoch,
        rewritten(old, floor, data).data == data,
        rewritten(old, floor, data).lamports >= old.lamports,
        rewritten(old, floor, data).lamports >= floor,
{
}

/// The program data account that the program account at `program_id` in
/// `s` names, by its decoded upgradeable-loader state, is at `k`.
pub open spec fn names_programdata(s: Map<Seq<u8>, AccountView>, program_id: Seq<u8>, k: Seq<u8>) -> bool {
    &&& s.contains_key(program_id)
    &&& decoded_loader_v3_state(s[program_id].data) matches Some(LoaderV3State::Program { programdata_address: pd })
    &&& pd@ == k
}

/// The `i`-th replacement of a run, applied to `stores[i]`, could change
/// the account at `k`: its program's account or the program data account
/// that the program's state names.
pub open spec fn changed_by(reps: Seq<ProgramReplacement>, stores: Seq<Map<Seq<u8>, AccountView>>, i: int, k: Seq<u8>) -> bool {
    k == reps[i].program_id@ || names_programdata(stores[i], reps[i].program_id@, k)
}

/// `after` keeps the accounts of `before`: the same addresses, each with the
/// same owner, executable flag and rent epoch, and no fewer lamports.
pub open spec fn keeps_accounts(before: Map<Seq<u8>, AccountView>, after: Map<Seq<u8>, AccountView>) -> bool {
    &&& after.dom() == before.dom()
    &&& forall|k: Seq<u8>| #[trigger] before.contains_key(k) ==> {
        &&& after[k].lamports >= before[k].lamports
        &&& after[k].owner == before[k].owner
        &&& after[k].executable == before[k].executable
        &&& after[k].rent_epoch == before[k].rent_epoch
    }
}

/// One successful replacement keeps the accounts (`keeps_accounts`) and
/// changes no account but the program's own or the program data account
/// that its state names.
pub proof fn lemma_replacement_step_effects(
    before: Map<Seq<u8>, AccountView>,
    after: Map<Seq<u8>, AccountView>,
    rent: Rent,
    program_id: Address,
    elf: Seq<u8>,
)
    requires
        replacement_within_limits(before, rent, program_id@, elf.len() as int),
        replacement_outcome(before, after, rent, program_id, elf, Ok::<(), ReplacementError>(())),
    ensures
        keeps_accounts(before, after),
        forall|k: Seq<u8>| #[trigger] before.contains_key(k) && after[k] != before[k]
            ==> k == program_id@ || names_programdata(before, program_id@, k),
{
    let pa = before[program_id@];
    if pa.owner == bpf_loader_upgradeable_key() {
        if let Some(LoaderV3State::Program { programdata_address: pd }) = decoded_loader_v3_state(pa.data) {
            let pda = before[pd@];
            if let Some(LoaderV3State::ProgramData { slot, upgrade_authority_address: auth }) =
                decoded_loader_v3_state(pda.data.subrange(0, PROGRAMDATA_METADATA_LEN as int)) {
                let data = programdata_metadata_bytes(slot, option_key(auth)) + elf;
                lemma_programdata_metadata_len(slot, auth);
                rent.lemma_minimum_balance_fits(data.len() as int);
                lemma_rewrite_keeps_account(pda, min_balance(rent, data.len() as int), data);
                assert(after.dom() =~= before.dom());
            }
        }
    } else if pa.owner == bpf_loader_key() || pa.owner == bpf_loader_deprecated_key() {
        rent.lemma_minimum_balance_fits(elf.len() as int);
        let m = min_balance(rent, elf.len() as int);
        lemma_rewrite_keeps_account(pa, if m >= 1 { m } else { 1 }, elf);
        assert(after.dom() =~= before.dom());
    } else if pa.owner == loader_v4_key() {
        let data = pa.data.subrange(0, 48) + elf;
        rent.lemma_minimum_balance_fits(data.len() as int);
        lemma_rewrite_keeps_account(pa, min_balance(rent, data.len() as int), data);
        assert(after.dom() =~= before.dom());
    }
}

/// A run of replacements keeps the accounts: the set of addresses is the
/// same, no account's lamports fall, owners, executable flags and rent
/// epochs stay. An account changes only where it is the program of one of
/// the applied replacements, or the program data account that program's
/// state named when its replacement ran. A run of no replacements succeeds
/// and changes nothing.
pub proof fn lemma_replacement_run_effects<F: Fn(&ProgramReplacement) -> Result<Vec<u8>, E>, E>(
    before: Map<Seq<u8>, AccountView>,
    after: Map<Seq<u8>, AccountView>,
    rent: Rent,
    reps: Seq<ProgramReplacement>,
    read: F,
    r: Result<(), ReplacementRunError<E>>,
    stores: Seq<Map<Seq<u8>, AccountView>>,
    elves: Seq<Seq<u8>>,
    n: int,
)
    requires
        replacement_run(before, after, rent, reps, read, r, stores, elves, n),
    ensures
        keeps_accounts(before, after),
        forall|k: Seq<u8>| #[trigger] before.contains_key(k) && after[k] != before[k] ==> exists|i: int|
            0 <= i < n && #[trigger] changed_by(reps, stores, i, k),
        reps.len() == 0 ==> r is Ok && after == before,
{
    lemma_run_prefix_effects(rent, reps, stores, elves, read, n);
}

proof fn lemma_run_prefix_effects<F: Fn(&ProgramReplacement) -> Result<Vec<u8>, E>, E>(
    rent: Rent,
    reps: Seq<ProgramReplacement>,
    stores: Seq<Map<Seq<u8>, AccountView>>,
    elves: Seq<Seq<u8>>,
    read: F,
    m: int,
)
    requires
        0 <= m < stores.len(),
        m <= reps.len(),
        m <= elves.len(),
        forall|i: int| 0 <= i < m ==> {
            &&& read_gives(read, reps[i], #[trigger] elves[i])
            &&& replacement_within_limits(stores[i], rent, reps[i].program_id@, elves[i].len() as int)
            &&& replacement_outcome(stores[i], stores[i + 1], rent, reps[i].program_id, elves[i], Ok::<(), ReplacementError>(()))
        },
    ensures
        keeps_accounts(stores[0], stores[m]),
        forall|k: Seq<u8>| #[trigger] stores[0].contains_key(k) && stores[m][k] != stores[0][k] ==> exists|i: int|
            0 <= i < m && #[trigger] changed_by(reps, stores, i, k),
    decreases m,
{
    if m == 0 {
        assert(stores[0].dom() =~= stores[0].dom());
    } else {
        let j = m - 1;
        lemma_run_prefix_effects(rent, reps, stores, elves, read, j);
        assert(read_gives(read, reps[j], elves[j]));
        lemma_replacement_step_effects(stores[j], stores[m], rent, reps[j].program_id, elves[j]);
        assert forall|k: Seq<u8>| #[trigger] stores[0].contains_key(k) && stores[m][k] != stores[0][k] implies exists|i: int|
            0 <= i < m && #[trigger] changed_by(reps, stores, i, k) by {
            assert(stores[j].contains_key(k));
            if stores[j][k] != stores[0][k] {
                let i = choose|i: int| 0 <= i < j && #[trigger] changed_by(reps, stores, i, k);
                assert(changed_by(reps, stores, i, k));
            } else {
                assert(stores[m][k] != stores[j][k]);
                assert(changed_by(reps, stores, j, k));
            }
        }
        assert forall|k: Seq<u8>| #[trigger] stores[0].contains_key(k) implies {
            &&& stores[m][k].lamports >= stores[0][k].lamports
            &&& stores[m][k].owner == stores[0][k].owner
            &&& stores[m][k].executable == stores[0][k].executable
            &&& stores[m][k].rent_epoch == stores[0][k].rent_epoch
        } by {
            assert(stores[j].contains_key(k));
        }
    }
}

} // verus!
