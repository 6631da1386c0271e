use vstd::prelude::*;
use crate::address::Address;
use crate::ids::{
    ed25519_program_id, ed25519_program_key, secp256k1_program_id, secp256k1_program_key,
    secp256r1_program_id, secp256r1_program_key,
};
use crate::message::CompiledInstruction;
use agave_feature_set::FeatureSet;
use crate::features::{active_features, feature_is_active};

verus! {

/// Why a precompile refused an instruction.
#[derive(Clone, Copy, Debug, PartialEq, Eq, Structural)]
pub enum PrecompileError {
    InvalidPublicKey,
    InvalidRecoveryId,
    InvalidSignature,
    InvalidDataOffsets,
    InvalidInstructionDataSize,
}

/// The verification routine that a precompiled program runs.
#[derive(Clone, Copy, Debug, PartialEq, Eq, Structural)]
pub enum Verify {
    Secp256k1,
    Ed25519,
    Secp256r1,
}

/// Information on a precompiled program.
#[derive(Clone, Copy, Debug)]
pub struct Precompile {
    pub program_id: Address,
    /// Feature that enables the precompile; `None` means always enabled.
    pub feature: Option<Address>,
    pub verify_fn: Verify,
}

/// The outcome of the secp256k1 precompile on an instruction's data and the
/// data of all instructions of the transaction.
pub uninterp spec fn secp256k1_outcome(data: Seq<u8>, instruction_datas: Seq<Seq<u8>>) -> Result<(), PrecompileError>;

/// The outcome of the ed25519 precompile, as for `secp256k1_outcome`.
pub uninterp spec fn ed25519_outcome(data: Seq<u8>, instruction_datas: Seq<Seq<u8>>) -> Result<(), PrecompileError>;

/// The outcome of the secp256r1 precompile, as for `secp256k1_outcome`.
pub uninterp spec fn secp256r1_outcome(data: Seq<u8>, instruction_datas: Seq<Seq<u8>>) -> Result<(), PrecompileError>;

/// The byte contents of a list of instruction datas.
pub open spec fn datas_view(instruction_datas: Seq<&[u8]>) -> Seq<Seq<u8>> {
    instruction_datas.map_values(|d: &[u8]| d@)
}

/// What the routine `kind` gives on the instruction data `data`.
pub open spec fn outcome_of(kind: Verify, data: Seq<u8>, instruction_datas: Seq<Seq<u8>>) -> Result<(), PrecompileError> {
    match kind {
        Verify::Secp256k1 => secp256k1_outcome(data, instruction_datas),
        Verify::Ed25519 => ed25519_outcome(data, instruction_datas),
        Verify::Secp256r1 => secp256r1_outcome(data, instruction_datas),
    }
}

/// Calls `agave_precompiles::secp256k1::verify`; its result is named by
/// `secp256k1_outcome` (the routine does not read the feature set), its
/// error carried over variant by variant.
#[verifier::external_body]
fn run_secp256k1(data: &[u8], instruction_datas: &[&[u8]], feature_set: &FeatureSet) -> (r: Result<(), PrecompileError>)
    ensures
        r == secp256k1_outcome(data@, datas_view(instruction_datas@)),
{
    match agave_precompiles::secp256k1::verify(data, instruction_datas, feature_set) {
        Ok(()) => Ok(()),
        Err(solana_precompile_error::PrecompileError::InvalidPublicKey) => Err(PrecompileError::InvalidPublicKey),
        Err(solana_precompile_error::PrecompileError::InvalidRecoveryId) => Err(PrecompileError::InvalidRecoveryId),
        Err(solana_precompile_error::PrecompileError::InvalidSignature) => Err(PrecompileError::InvalidSignature),
        Err(solana_precompile_error::PrecompileError::InvalidDataOffsets) => Err(PrecompileError::InvalidDataOffsets),
        Err(solana_precompile_error::PrecompileError::InvalidInstructionDataSize) => Err(PrecompileError::InvalidInstructionDataSize),
    }
}

/// Calls `agave_precompiles::ed25519::verify`; its result is named by
/// `ed25519_outcome` (the routine does not read the feature set), its error
/// carried over variant by variant.
#[verifier::external_body]
fn run_ed25519(data: &[u8], instruction_datas: &[&[u8]], feature_set: &FeatureSet) -> (r: Result<(), PrecompileError>)
    ensures
        r == ed25519_outcome(data@, datas_view(instruction_datas@)),
{
    match agave_precompiles::ed25519::verify(data, instruction_datas, feature_set) {
        Ok(()) => Ok(()),
        Err(solana_precompile_error::PrecompileError::InvalidPublicKey) => Err(PrecompileError::InvalidPublicKey),
        Err(solana_precompile_error::PrecompileError::InvalidRecoveryId) => Err(PrecompileError::InvalidRecoveryId),
        Err(solana_precompile_error::PrecompileError::InvalidSignature) => Err(PrecompileError::InvalidSignature),
        Err(solana_precompile_error::PrecompileError::InvalidDataOffsets) => Err(PrecompileError::InvalidDataOffsets),
        Err(solana_precompile_error::PrecompileError::InvalidInstructionDataSize) => Err(PrecompileError::InvalidInstructionDataSize),
    }
}

/// Calls `agave_precompiles::secp256r1::verify`; its result is named by
/// `secp256r1_outcome` (the routine does not read the feature set), its
/// error carried over variant by variant.
#[verifier::external_body]
fn run_secp256r1(data: &[u8], instruction_datas: &[&[u8]], feature_set: &FeatureSet) -> (r: Result<(), PrecompileError>)
    ensures
        r == secp256r1_outcome(data@, datas_view(instruction_datas@)),
{
    match agave_precompiles::secp256r1::verify(data, instruction_datas, feature_set) {
        Ok(()) => Ok(()),
        Err(solana_precompile_error::PrecompileError::InvalidPublicKey) => Err(PrecompileError::InvalidPublicKey),
        Err(solana_precompile_error::PrecompileError::InvalidRecoveryId) => Err(PrecompileError::InvalidRecoveryId),
        Err(solana_precompile_error::PrecompileError::InvalidSignature) => Err(PrecompileError::InvalidSignature),
        Err(solana_precompile_error::PrecompileError::InvalidDataOffsets) => Err(PrecompileError::InvalidDataOffsets),
        Err(solana_precompile_error::PrecompileError::InvalidInstructionDataSize) => Err(PrecompileError::InvalidInstructionDataSize),
    }
}

/// Whether `p` answers to `program_id` when the feature gate reads `enabled`.
pub open spec fn answers(p: Precompile, program_id: Seq<u8>, enabled: spec_fn(Address) -> bool) -> bool {
    (p.feature is None || enabled(p.feature->0)) && p.program_id@ == program_id
}

impl Precompile {
    pub fn new(program_id: Address, feature: Option<Address>, verify_fn: Verify) -> (r: Self)
        ensures
            r.program_id == program_id,
            r.feature == feature,
            r.verify_fn == verify_fn,
    {
        Precompile { program_id, feature, verify_fn }
    }

    /// Whether this precompile is the program `program_id` and, where it is
    /// feature-gated, `is_enabled` holds of its feature.
    pub fn check_id<F: Fn(&Address) -> bool>(&self, program_id: &Address, is_enabled: F) -> (r: bool)
        requires
            forall|a: &Address| is_enabled.requires((a,)),
        ensures
            self.feature is None ==> (r == (self.program_id@ == program_id@)),
            self.feature matches Some(f) ==> exists|b: bool|
                is_enabled.ensures((&f,), b) && r == (b && self.program_id@ == program_id@),
    {
        let gate = match &self.feature {
            None => true,
            Some(feature_id) => is_enabled(feature_id),
        };
        gate && self.program_id == *program_id
    }

    /// Runs this precompile's routine on `data`.
    pub fn verify(&self, data: &[u8], instruction_datas: &[&[u8]], feature_set: &FeatureSet) -> (r: Result<(), PrecompileError>)
        ensures
            r == outcome_of(self.verify_fn, data@, datas_view(instruction_datas@)),
    {
        match self.verify_fn {
            Verify::Secp256k1 => run_secp256k1(data, instruction_datas, feature_set),
            Verify::Ed25519 => run_ed25519(data, instruction_datas, feature_set),
            Verify::Secp256r1 => run_secp256r1(data, instruction_datas, feature_set),
        }
    }
}

/// The precompile that answers to `program_id`, if any: the secp256k1,
/// ed25519 and secp256r1 programs, none of them feature-gated.
pub open spec fn precompile_kind_of(program_id: Seq<u8>) -> Option<Verify> {
    if program_id == secp256k1_program_key() {
        Some(Verify::Secp256k1)
    } else if program_id == ed25519_program_key() {
        Some(Verify::Ed25519)
    } else if program_id == secp256r1_program_key() {
        Some(Verify::Secp256r1)
    } else {
        None
    }
}

/// The table of precompiled programs, in the order in which they are looked up.
pub open spec fn is_precompile_table(t: Seq<Precompile>) -> bool {
    &&& t.len() == 3
    &&& t[0].program_id@ == secp256k1_program_key() && t[0].verify_fn == Verify::Secp256k1
    &&& t[1].program_id@ == ed25519_program_key() && t[1].verify_fn == Verify::Ed25519
    &&& t[2].program_id@ == secp256r1_program_key() && t[2].verify_fn == Verify::Secp256r1
    &&& forall|i: int| 0 <= i < 3 ==> (#[trigger] t[i]).feature is None
}

/// The three program ids of the table are distinct.
pub proof fn lemma_precompile_keys_distinct()
    ensures
        secp256k1_program_key() != ed25519_program_key(),
        secp256k1_program_key() != secp256r1_program_key(),
        ed25519_program_key() != secp256r1_program_key(),
{
    assert(secp256k1_program_key()[0] != ed25519_program_key()[0]);
    assert(secp256k1_program_key()[0] != secp256r1_program_key()[0]);
    assert(ed25519_program_key()[0] != secp256r1_program_key()[0]);
}

/// Where the table places the precompile of `program_id`.
pub open spec fn table_position(program_id: Seq<u8>) -> int {
    if program_id == secp256k1_program_key() {
        0
    } else if program_id == ed25519_program_key() {
        1
    } else if program_id == secp256r1_program_key() {
        2
    } else {
        3
    }
}

/// The precompiled programs that the replay recognises.
pub fn get_precompiles() -> (r: Vec<Precompile>)
    ensures
        is_precompile_table(r@),
{
    let mut table: Vec<Precompile> = Vec::new();
    table.push(Precompile::new(secp256k1_program_id(), None, Verify::Secp256k1));
    table.push(Precompile::new(ed25519_program_id(), None, Verify::Ed25519));
    table.push(Precompile::new(secp256r1_program_id(), None, Verify::Secp256r1));
    table
}

/// The index of the first table entry that answers to `program_id`, or the
/// table's length when none does.
fn find_precompile<F: Fn(&Address) -> bool>(table: &Vec<Precompile>, program_id: &Address, is_enabled: &F) -> (r: usize)
    requires
        is_precompile_table(table@),
        forall|a: &Address| is_enabled.requires((a,)),
    ensures
        r == table_position(program_id@),
{
    proof {
        lemma_precompile_keys_distinct();
    }
    let mut i: usize = 0;
    while i < table.len()
        invariant
            is_precompile_table(table@),
            forall|a: &Address| is_enabled.requires((a,)),
            i <= table@.len(),
            i <= table_position(program_id@),
        decreases table@.len() - i,
    {
        let found = table[i].check_id(program_id, is_enabled);
        if found {
            return i;
        }
        i = i + 1;
    }
    i
}

/// Whether `program_id` is a precompiled program enabled under `is_enabled`.
pub fn is_precompile<F: Fn(&Address) -> bool>(program_id: &Address, is_enabled: F) -> (r: bool)
    requires
        forall|a: &Address| is_enabled.requires((a,)),
    ensures
        r == (precompile_kind_of(program_id@) is Some),
{
    let table = get_precompiles();
    let i = find_precompile(&table, program_id, &is_enabled);
    i < table.len()
}

/// The precompiled program `program_id`, if it is one enabled under
/// `is_enabled`.
pub fn get_precompile<F: Fn(&Address) -> bool>(program_id: &Address, is_enabled: F) -> (r: Option<Precompile>)
    requires
        forall|a: &Address| is_enabled.requires((a,)),
    ensures
        match precompile_kind_of(program_id@) {
            Some(kind) => r matches Some(p) && p.program_id@ == program_id@
                && p.feature is None && p.verify_fn == kind,
            None => r is None,
        },
{
    let table = get_precompiles();
    let i = find_precompile(&table, program_id, &is_enabled);
    if i < table.len() {
        Some(table[i])
    } else {
        None
    }
}

/// Runs the precompile of `program_id`, if it is one whose feature is active,
/// on the data of `precompile_instruction`, with the data of every
/// instruction of the transaction at hand; succeeds where it is none.
pub fn verify_if_precompile(
    program_id: &Address,
    precompile_instruction: &CompiledInstruction,
    all_instructions: &[CompiledInstruction],
    feature_set: &FeatureSet,
) -> (r: Result<(), PrecompileError>)
    ensures
        match precompile_kind_of(program_id@) {
            Some(kind) => r == outcome_of(
                kind,
                precompile_instruction.data@,
                all_instructions@.map_values(|ix: CompiledInstruction| ix.data@),
            ),
            None => r == Ok::<(), PrecompileError>(()),
        },
{
    let table = get_precompiles();
    let i = find_precompile(
        &table,
        program_id,
        &(|feature_id: &Address| -> (b: bool)
            ensures
                b == active_features(*feature_set).dom().contains(feature_id@),
            { feature_is_active(feature_set, feature_id) }),
    );
    if i < table.len() {
        let mut instruction_datas: Vec<&[u8]> = Vec::new();
        let mut j: usize = 0;
        while j < all_instructions.len()
            invariant
                j <= all_instructions@.len(),
                instruction_datas@.len() == j,
                forall|k: int| 0 <= k < j ==> (#[trigger] instruction_datas@[k])@ == all_instructions@[k].data@,
            decreases all_instructions@.len() - j,
        {
            instruction_datas.push(all_instructions[j].data.as_slice());
            j = j + 1;
        }
        proof {
            assert(datas_view(instruction_datas@) =~= all_instructions@.map_values(|ix: CompiledInstruction| ix.data@));
        }
        table[i].verify(precompile_instruction.data.as_slice(), instruction_datas.as_slice(), feature_set)
    } else {
        Ok(())
    }
}

} // verus!
