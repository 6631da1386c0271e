use vstd::prelude::*;
use crate::address::Address;
use crate::bytes::{le_u32, le_u64};
use solana_loader_v3_interface::state::UpgradeableLoaderState;
use solana_pubkey::Pubkey;

verus! {

/// The account states of the upgradeable loader (loader v3).
#[derive(Clone, Copy, Debug)]
pub enum LoaderV3State {
    Uninitialized,
    Buffer { authority_address: Option<Address> },
    Program { programdata_address: Address },
    ProgramData { slot: u64, upgrade_authority_address: Option<Address> },
}

/// Length of the serialized metadata that starts a program data account.
pub const PROGRAMDATA_METADATA_LEN: usize = 45;

/// What bincode decoding of `data` as an `UpgradeableLoaderState` yields.
pub uninterp spec fn decoded_loader_v3_state(data: Seq<u8>) -> Option<LoaderV3State>;

/// The eight little-endian bytes of a `u64`.
pub open spec fn u64_le_bytes(x: u64) -> Seq<u8> {
    seq![
        (x % 0x100) as u8,
        ((x / 0x100) % 0x100) as u8,
        ((x / 0x1_0000) % 0x100) as u8,
        ((x / 0x100_0000) % 0x100) as u8,
        ((x / 0x1_0000_0000) % 0x100) as u8,
        ((x / 0x100_0000_0000) % 0x100) as u8,
        ((x / 0x1_0000_0000_0000) % 0x100) as u8,
        ((x / 0x100_0000_0000_0000) % 0x100) as u8,
    ]
}

/// The bincode encoding of the program data metadata
/// `UpgradeableLoaderState::ProgramData { slot, upgrade_authority_address }`:
/// the variant tag 3 as a little-endian `u32`, the slot as a little-endian
/// `u64`, then the option tag 0, or the tag 1 followed by the 32-byte key.
pub open spec fn programdata_metadata_bytes(slot: u64, upgrade_authority: Option<Seq<u8>>) -> Seq<u8> {
    seq![3u8, 0, 0, 0] + u64_le_bytes(slot) + match upgrade_authority {
        None => seq![0u8],
        Some(k) => seq![1u8] + k,
    }
}

/// The length of the program data metadata: 45 bytes with an upgrade
/// authority, 13 without.
pub open spec fn programdata_metadata_len(upgrade_authority: Option<Address>) -> int {
    if upgrade_authority is Some { PROGRAMDATA_METADATA_LEN as int } else { 13 }
}

/// The encoded metadata is 45 bytes long with an upgrade authority and 13
/// without.
pub proof fn lemma_programdata_metadata_len(slot: u64, upgrade_authority: Option<Address>)
    ensures
        programdata_metadata_bytes(slot, option_key(upgrade_authority)).len() == programdata_metadata_len(upgrade_authority),
{
    if let Some(a) = upgrade_authority {
        assert(a.0@.len() == 32);
    }
}

/// An optional key at `at` in `d` has a valid encoding: the tag 0, or the
/// tag 1 followed by 32 key bytes.
pub open spec fn option_key_decodable(d: Seq<u8>, at: int) -> bool {
    &&& at < d.len()
    &&& d[at] == 0 || (d[at] == 1 && at + 33 <= d.len())
}

/// `k` is the optional key encoded at `at` in `d`.
pub open spec fn option_key_at(d: Seq<u8>, at: int, k: Option<Address>) -> bool {
    match k {
        None => d[at] == 0,
        Some(a) => d[at] == 1 && a@ == d.subrange(at + 1, at + 33),
    }
}

/// Bincode decodes `d` (extra bytes after the value are allowed) as an
/// `UpgradeableLoaderState`: a little-endian `u32` variant tag from 0 to 3,
/// followed by that variant's fields.
pub open spec fn loader_v3_state_decodable(d: Seq<u8>) -> bool {
    &&& 4 <= d.len()
    &&& {
        let tag = le_u32(d, 0);
        ||| tag == 0
        ||| tag == 1 && option_key_decodable(d, 4)
        ||| tag == 2 && 36 <= d.len()
        ||| tag == 3 && 12 <= d.len() && option_key_decodable(d, 12)
    }
}

/// `s` is the state that `d` encodes: `Uninitialized` (tag 0), `Buffer`
/// (tag 1, an optional authority key), `Program` (tag 2, the 32-byte
/// program data address), `ProgramData` (tag 3, the slot as a little-endian
/// `u64`, an optional authority key).
pub open spec fn loader_v3_state_layout(d: Seq<u8>, s: LoaderV3State) -> bool {
    match s {
        LoaderV3State::Uninitialized => le_u32(d, 0) == 0,
        LoaderV3State::Buffer { authority_address } => le_u32(d, 0) == 1 && option_key_at(d, 4, authority_address),
        LoaderV3State::Program { programdata_address } => le_u32(d, 0) == 2 && programdata_address@ == d.subrange(4, 36),
        LoaderV3State::ProgramData { slot, upgrade_authority_address } => {
            &&& le_u32(d, 0) == 3
            &&& slot == le_u64(d, 4)
            &&& option_key_at(d, 12, upgrade_authority_address)
        },
    }
}

/// The slot as written by `u64_le_bytes` reads back as the slot.
proof fn lemma_u64_le_round_trip(x: u64)
    ensures
        le_u64(u64_le_bytes(x), 0) == x,
{
    let b = u64_le_bytes(x);
    assert(b[0] + 0x100 * b[1] + 0x1_0000 * b[2] + 0x100_0000 * b[3]
        + 0x1_0000_0000 * (b[4] + 0x100 * b[5] + 0x1_0000 * b[6] + 0x100_0000 * b[7]) == x) by {
        assert((x % 0x100) as u8 + 0x100 * ((x / 0x100) % 0x100) as u8 + 0x1_0000 * ((x / 0x1_0000) % 0x100) as u8
            + 0x100_0000 * ((x / 0x100_0000) % 0x100) as u8 + 0x1_0000_0000 * (((x / 0x1_0000_0000) % 0x100) as u8
            + 0x100 * ((x / 0x100_0000_0000) % 0x100) as u8 + 0x1_0000 * ((x / 0x1_0000_0000_0000) % 0x100) as u8
            + 0x100_0000 * ((x / 0x100_0000_0000_0000) % 0x100) as u8) == x) by (bit_vector);
    }
}

/// The metadata that a replacement writes decodes back to the slot and
/// upgrade authority it was written from.
pub proof fn lemma_programdata_metadata_round_trip(slot: u64, upgrade_authority: Option<Address>)
    ensures
        loader_v3_state_decodable(programdata_metadata_bytes(slot, option_key(upgrade_authority))),
        loader_v3_state_layout(
            programdata_metadata_bytes(slot, option_key(upgrade_authority)),
            LoaderV3State::ProgramData { slot, upgrade_authority_address: upgrade_authority },
        ),
{
    let d = programdata_metadata_bytes(slot, option_key(upgrade_authority));
    let b = u64_le_bytes(slot);
    lemma_u64_le_round_trip(slot);
    lemma_programdata_metadata_len(slot, upgrade_authority);
    assert(d.subrange(4, 12) =~= b);
    assert forall|i: int| 0 <= i < 8 implies d[4 + i] == b[i] by {
        assert(d.subrange(4, 12)[i] == d[4 + i]);
    }
    assert(le_u64(d, 4) == le_u64(b, 0));
    assert(le_u32(d, 0) == 3);
    if let Some(a) = upgrade_authority {
        assert(a.0@.len() == 32);
        assert(d.subrange(13, 45) =~= a@);
    }
}

/// The program data address that the upgradeable loader derives for a program.
pub uninterp spec fn programdata_address_of(program: Seq<u8>) -> Seq<u8>;

pub open spec fn option_key(a: Option<Address>) -> Option<Seq<u8>> {
    match a {
        Some(k) => Some(k@),
        None => None,
    }
}

/// Calls `bincode::deserialize::<UpgradeableLoaderState>` on `data`; the
/// result is named by `decoded_loader_v3_state`.
#[verifier::external_body]
pub(crate) fn decode_loader_v3_state(data: &[u8]) -> (r: Option<LoaderV3State>)
    ensures
        r == decoded_loader_v3_state(data@),
        r is Some <==> loader_v3_state_decodable(data@),
        r matches Some(s) ==> loader_v3_state_layout(data@, s),
{
    match bincode::deserialize::<UpgradeableLoaderState>(data) {
        Ok(UpgradeableLoaderState::Uninitialized) => Some(LoaderV3State::Uninitialized),
        Ok(UpgradeableLoaderState::Buffer { authority_address }) => Some(LoaderV3State::Buffer {
            authority_address: authority_address.map(|k| Address(k.to_bytes())),
        }),
        Ok(UpgradeableLoaderState::Program { programdata_address }) => Some(LoaderV3State::Program {
            programdata_address: Address(programdata_address.to_bytes()),
        }),
        Ok(UpgradeableLoaderState::ProgramData { slot, upgrade_authority_address }) => Some(LoaderV3State::ProgramData {
            slot,
            upgrade_authority_address: upgrade_authority_address.map(|k| Address(k.to_bytes())),
        }),
        Err(_) => None,
    }
}

/// Calls `bincode::serialize` on `UpgradeableLoaderState::ProgramData`.
/// Bincode's default options set no size limit, and the variant holds a
/// `u64` and an `Option<Pubkey>`, whose serializations cannot fail: the
/// call returns `Ok` with the bytes of `programdata_metadata_bytes` (the
/// variant tag as a `u32`, the fixed-width slot, the option tag and, when
/// present, the key as 32 bytes), 45 bytes with an authority (the
/// loader's `size_of_programdata_metadata()`, which its own test measures)
/// and 13 without.
#[verifier::external_body]
pub(crate) fn encode_programdata_metadata(slot: u64, upgrade_authority: Option<Address>) -> (r: Result<Vec<u8>, String>)
    ensures
        r is Ok,
        r matches Ok(b) ==> b@ == programdata_metadata_bytes(slot, option_key(upgrade_authority)),
{
    let state = UpgradeableLoaderState::ProgramData {
        slot,
        upgrade_authority_address: upgrade_authority.map(|a| Pubkey::new_from_array(a.0)),
    };
    bincode::serialize(&state).map_err(|e| format!("{e}"))
}

/// Calls `solana_loader_v3_interface::get_program_data_address`, a program
/// derived address search whose result is named by `programdata_address_of`.
#[verifier::external_body]
pub(crate) fn program_data_address(program: &Address) -> (r: Address)
    ensures
        r@ == programdata_address_of(program@),
{
    Address(solana_loader_v3_interface::get_program_data_address(&Pubkey::new_from_array(program.0)).to_bytes())
}

/// Calls `LoaderV4State::program_data_offset()`, the size of the loader v4
/// account header, which the crate's own test fixes at 0x30.
#[verifier::external_body]
pub(crate) fn loader_v4_program_data_offset() -> (r: usize)
    ensures
        r == 48,
{
    solana_loader_v4_interface::state::LoaderV4State::program_data_offset()
}

} // verus!
