use delorean::batch::{resolve_blob_batch, FixtureAccountBatch, FixtureBlobBatch};
use delorean::address::Address;
use delorean::blob::FixtureBlob;

#[test]
fn inline_blob_exposes_bytes() {
    let blob = FixtureBlob::Inline(vec![1, 2, 3]);
    assert_eq!(blob.inline_bytes(), Some(&[1u8, 2, 3][..]));
    assert!(blob.hash().is_none());
    assert_eq!(blob.expect_inline(), &vec![1u8, 2, 3]);
}

#[test]
fn hash_blob_exposes_hash_only() {
    let blob = FixtureBlob::Hash([5u8; 32]);
    assert!(blob.inline_bytes().is_none());
    assert_eq!(blob.hash(), Some(&[5u8; 32]));
}

#[test]
fn batch_blob_accessors() {
    let inline = FixtureBlobBatch::Inline(vec![9]);
    let shared = FixtureBlobBatch::Shared(4);
    assert_eq!(inline.inline_bytes(), Some(&[9u8][..]));
    assert_eq!(inline.shared_index(), None);
    assert_eq!(shared.inline_bytes(), None);
    assert_eq!(shared.shared_index(), Some(4));
}

#[test]
fn resolving_inline_blob_keeps_its_bytes() {
    let r = resolve_blob_batch(FixtureBlobBatch::Inline(vec![1, 2]), &[vec![7, 7]]);
    assert_eq!(r.inline_bytes(), Some(&[1u8, 2][..]));
}

#[test]
fn resolving_shared_blob_copies_table_entry() {
    let blobs = vec![vec![10u8], vec![20u8, 21]];
    let r = resolve_blob_batch(FixtureBlobBatch::Shared(1), &blobs);
    assert_eq!(r.inline_bytes(), Some(&[20u8, 21][..]));
}

#[test]
fn batch_account_executable_flag() {
    let mut a = FixtureAccountBatch {
        pubkey: Address([1; 32]),
        owner: Address([2; 32]),
        lamports: 5,
        rent_epoch: 0,
        flags: 1,
        data: FixtureBlobBatch::Inline(vec![]),
    };
    assert!(a.is_executable());
    a.flags = 2;
    assert!(!a.is_executable());
    a.flags = 3;
    assert!(a.is_executable());
}
