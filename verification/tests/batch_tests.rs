use std::sync::Arc;

use delorean::address::Address;
use delorean::batch::{
    FixtureAccountBatch, FixtureBlobBatch, FixtureProgramDataBatch, TransactionFixtureBatch,
    TransactionFixturesBatch,
};
use delorean::block::batch_matches_request;
use delorean::fixture::FixtureSysvar;
use delorean::result::ExecutionResult;

fn account(key: u8, data: FixtureBlobBatch) -> FixtureAccountBatch {
    FixtureAccountBatch {
        pubkey: Address([key; 32]),
        owner: Address([100; 32]),
        lamports: key as u64 * 10,
        rent_epoch: 7,
        flags: 0,
        data,
    }
}

fn fixture_batch() -> TransactionFixtureBatch {
    TransactionFixtureBatch {
        schema_version: 3,
        slot: 42,
        recent_blockhash: [8; 32],
        signature: [9; 64],
        client_version: vec![1, 2],
        enabled_features: vec![Address([50; 32])],
        lamports_per_signature: 5000,
        transaction: vec![4, 4, 4],
        alt_writable: vec![Address([60; 32])],
        alt_readonly: vec![],
        pre_accounts: vec![
            account(1, FixtureBlobBatch::Inline(vec![1, 1])),
            account(2, FixtureBlobBatch::Shared(0)),
        ],
        programs: vec![FixtureProgramDataBatch {
            program_id: Address([70; 32]),
            programdata: FixtureBlobBatch::Shared(1),
        }],
        sysvars: Arc::new(vec![FixtureSysvar { sysvar_id: Address([80; 32]), data: vec![3] }]),
        result: ExecutionResult {
            status: vec![0],
            compute_units_consumed: 150,
            return_data_program: Address([0; 32]),
            return_data: vec![],
        },
        post_accounts: vec![account(3, FixtureBlobBatch::Shared(1))],
    }
}

#[test]
fn into_inlined_resolves_every_blob_and_keeps_fields() {
    let blobs = vec![vec![0xaa, 0xbb], vec![0xcc]];
    let batch = fixture_batch();
    assert!(batch.references_resolve(&blobs));
    let f = batch.into_inlined(&blobs);
    assert_eq!(f.schema_version, 3);
    assert_eq!(f.slot, 42);
    assert_eq!(f.recent_blockhash, [8; 32]);
    assert_eq!(f.signature, [9; 64]);
    assert_eq!(f.client_version, vec![1, 2]);
    assert_eq!(f.enabled_features.len(), 1);
    assert_eq!(f.lamports_per_signature, 5000);
    assert_eq!(f.transaction, vec![4, 4, 4]);
    assert_eq!(f.result.compute_units_consumed, 150);
    assert_eq!(f.sysvars.len(), 1);
    assert_eq!(f.pre_accounts.len(), 2);
    assert_eq!(f.pre_accounts[0].data.inline_bytes(), Some(&[1u8, 1][..]));
    assert_eq!(f.pre_accounts[1].data.inline_bytes(), Some(&[0xaau8, 0xbb][..]));
    assert_eq!(f.pre_accounts[1].lamports, 20);
    assert_eq!(f.pre_accounts[1].rent_epoch, 7);
    assert_eq!(f.programs[0].programdata.inline_bytes(), Some(&[0xccu8][..]));
    assert_eq!(f.programs[0].program_id, Address([70; 32]));
    assert_eq!(f.post_accounts[0].data.inline_bytes(), Some(&[0xccu8][..]));
}

#[test]
fn out_of_range_shared_index_is_detected_before_inlining() {
    let batch = fixture_batch();
    assert!(!batch.references_resolve(&[vec![1]]));
    assert!(!batch.references_resolve(&[]));
}

#[test]
fn batch_response_size_check() {
    let batch = TransactionFixturesBatch {
        batch_schema_version: 0,
        blobs: vec![],
        fixtures: vec![None, Some(fixture_batch())],
    };
    assert!(batch_matches_request(&batch, 2));
    assert!(!batch_matches_request(&batch, 3));
}
