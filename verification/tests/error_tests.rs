use base64::Engine;
use std::sync::Arc;

use delorean::address::Address;
use delorean::error::{decode_payload, PayloadError, PenroseTypesError};
use delorean::fixture::TransactionFixture;
use delorean::result::ExecutionResult;

fn fixture(client_version: Vec<u8>) -> TransactionFixture {
    TransactionFixture {
        schema_version: 1,
        slot: 1,
        recent_blockhash: [0; 32],
        signature: [0; 64],
        client_version,
        enabled_features: vec![],
        lamports_per_signature: 0,
        transaction: vec![],
        alt_writable: vec![],
        alt_readonly: vec![],
        pre_accounts: vec![],
        programs: vec![],
        sysvars: Arc::new(vec![]),
        result: ExecutionResult {
            status: vec![],
            compute_units_consumed: 0,
            return_data_program: Address([0; 32]),
            return_data: vec![],
        },
        post_accounts: vec![],
    }
}

#[test]
fn base64_payload_decodes() {
    assert_eq!(decode_payload("AQID").unwrap(), vec![1, 2, 3]);
    assert_eq!(decode_payload("").unwrap(), Vec::<u8>::new());
    use_base64_message();
}

#[test]
fn client_version_decodes_from_bincode() {
    let v = solana_version::Version::default();
    let f = fixture(bincode::serialize(&v).unwrap());
    let decoded = f.client_version().unwrap();
    assert_eq!(decoded.major, v.major());
    assert_eq!(decoded.minor, v.minor());
    assert_eq!(decoded.patch, v.patch());
    assert_eq!(decoded.commit, v.commit());
    assert_eq!(decoded.feature_set, v.feature_set());
    assert_eq!(decoded.client, u16::try_from(v.client().clone()).unwrap());
    assert_eq!(decoded.prerelease == delorean::error::Prerelease::Stable, *v.prerelease() == solana_version::Prerelease::Stable);
    assert!(matches!(fixture(vec![1]).client_version(), Err(PenroseTypesError::Bincode(_))));
}

fn expected_base64_error(text: &str) -> String {
    format!("{}", base64::prelude::BASE64_STANDARD.decode(text).unwrap_err())
}

fn use_base64_message() {
    match decode_payload("not base64!") {
        Err(PayloadError::NotBase64 { message }) => assert_eq!(message, expected_base64_error("not base64!")),
        other => panic!("unexpected {other:?}"),
    }
}

#[test]
fn client_version_from_hand_written_bytes() {
    // major 2, minor 3 (stable), patch 14 as one-byte varints, then the
    // commit and feature set as fixed u32s, then client 3 (Agave) as a varint.
    let mut bytes = vec![2u8, 3, 14];
    bytes.extend_from_slice(&0xdeadbeefu32.to_le_bytes());
    bytes.extend_from_slice(&7u32.to_le_bytes());
    bytes.push(3);
    let v = fixture(bytes).client_version().unwrap();
    assert_eq!((v.major, v.minor, v.patch, v.commit, v.feature_set, v.client), (2, 3, 14, 0xdeadbeef, 7, 3));
    assert_eq!(v.prerelease, delorean::error::Prerelease::Stable);
}
