use agave_feature_set::FeatureSet;
use delorean::address::Address;
use delorean::message::CompiledInstruction;
use delorean::precompiles::{
    get_precompile, get_precompiles, is_precompile, verify_if_precompile, Precompile, PrecompileError,
    Verify,
};

fn ed25519() -> Address {
    Address(solana_sdk_ids::ed25519_program::id().to_bytes())
}
fn secp256k1() -> Address {
    Address(solana_sdk_ids::secp256k1_program::id().to_bytes())
}
fn secp256r1() -> Address {
    Address(solana_sdk_ids::secp256r1_program::id().to_bytes())
}

fn ix(data: Vec<u8>) -> CompiledInstruction {
    CompiledInstruction { program_id_index: 0, accounts: vec![], data }
}

#[test]
fn table_lists_the_three_precompiles() {
    let table = get_precompiles();
    assert_eq!(table.len(), 3);
    assert_eq!(table[0].program_id, secp256k1());
    assert_eq!(table[0].verify_fn, Verify::Secp256k1);
    assert_eq!(table[1].program_id, ed25519());
    assert_eq!(table[1].verify_fn, Verify::Ed25519);
    assert_eq!(table[2].program_id, secp256r1());
    assert_eq!(table[2].verify_fn, Verify::Secp256r1);
    assert!(table.iter().all(|p| p.feature.is_none()));
}

#[test]
fn precompile_lookup() {
    assert!(is_precompile(&ed25519(), |_| false));
    assert!(!is_precompile(&Address([3; 32]), |_| true));
    let p = get_precompile(&secp256r1(), |_| false).expect("precompile");
    assert_eq!(p.verify_fn, Verify::Secp256r1);
    assert!(get_precompile(&Address([0; 32]), |_| true).is_none());
}

#[test]
fn check_id_consults_the_feature_gate() {
    let gated = Precompile::new(ed25519(), Some(Address([7; 32])), Verify::Ed25519);
    assert!(gated.check_id(&ed25519(), |f| *f == Address([7; 32])));
    assert!(!gated.check_id(&ed25519(), |_| false));
    assert!(!gated.check_id(&secp256k1(), |_| true));
    let open = Precompile::new(ed25519(), None, Verify::Ed25519);
    assert!(open.check_id(&ed25519(), |_| false));
}

#[test]
fn non_precompile_instruction_passes() {
    let fs = FeatureSet::default();
    let r = verify_if_precompile(&Address([3; 32]), &ix(vec![]), &[], &fs);
    assert_eq!(r, Ok(()));
}

#[test]
fn ed25519_rejects_short_data() {
    let fs = FeatureSet::default();
    let r = verify_if_precompile(&ed25519(), &ix(vec![1]), &[ix(vec![1])], &fs);
    assert_eq!(r, Err(PrecompileError::InvalidInstructionDataSize));
}

#[test]
fn ed25519_accepts_zero_signatures() {
    let fs = FeatureSet::default();
    let data = vec![0u8, 0];
    let r = verify_if_precompile(&ed25519(), &ix(data.clone()), &[ix(data)], &fs);
    assert_eq!(r, Ok(()));
}

#[test]
fn secp256k1_accepts_empty_count_and_rejects_empty_data() {
    let fs = FeatureSet::default();
    assert_eq!(verify_if_precompile(&secp256k1(), &ix(vec![0]), &[ix(vec![0])], &fs), Ok(()));
    assert_eq!(
        verify_if_precompile(&secp256k1(), &ix(vec![]), &[ix(vec![])], &fs),
        Err(PrecompileError::InvalidInstructionDataSize)
    );
}

#[test]
fn secp256r1_rejects_zero_signatures() {
    let fs = FeatureSet::default();
    assert_eq!(
        verify_if_precompile(&secp256r1(), &ix(vec![0, 0]), &[ix(vec![0, 0])], &fs),
        Err(PrecompileError::InvalidInstructionDataSize)
    );
}

#[test]
fn verify_runs_the_routine_of_the_entry() {
    let fs = FeatureSet::default();
    let p = Precompile::new(ed25519(), None, Verify::Ed25519);
    let data: &[u8] = &[0, 0];
    assert_eq!(p.verify(data, &[data], &fs), Ok(()));
    let q = Precompile::new(ed25519(), None, Verify::Secp256r1);
    assert_eq!(q.verify(data, &[data], &fs), Err(PrecompileError::InvalidInstructionDataSize));
}
