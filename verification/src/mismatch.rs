use vstd::prelude::*;
use crate::address::Address;

verus! {

/// A difference between a captured post-execution account and the state
/// that the replay left.
#[derive(Debug)]
pub enum AccountMismatch {
    /// The captured account holds a hash reference in place of its data.
    HashBlob { pubkey: Address },
    Lamports { pubkey: Address, actual: u64, expected: u64 },
    Owner { pubkey: Address, actual: Address, expected: Address },
    RentEpoch { pubkey: Address, actual: u64, expected: u64 },
    Executable { pubkey: Address, actual: bool, expected: bool },
    Data { pubkey: Address, actual: Vec<u8>, expected: Vec<u8> },
    /// The data lengths differ (checked for synthetic accounts).
    DataLength { pubkey: Address, actual: usize, expected: usize },
    /// The expected data is too short to end in a current-instruction index.
    MissingCurrentIndex { pubkey: Address, len: usize },
    /// The serialized instructions before the current-instruction index differ.
    InstructionPayload { pubkey: Address, prefix_len: usize },
    /// A synthetic account is absent from the accounts that the replay loaded.
    NotLoaded { pubkey: Address },
    /// The account is absent from the state that the replay committed.
    NotCommitted { pubkey: Address },
}

/// The mathematical value of an `AccountMismatch`.
pub enum MismatchView {
    HashBlob { pubkey: Seq<u8> },
    Lamports { pubkey: Seq<u8>, actual: u64, expected: u64 },
    Owner { pubkey: Seq<u8>, actual: Seq<u8>, expected: Seq<u8> },
    RentEpoch { pubkey: Seq<u8>, actual: u64, expected: u64 },
    Executable { pubkey: Seq<u8>, actual: bool, expected: bool },
    Data { pubkey: Seq<u8>, actual: Seq<u8>, expected: Seq<u8> },
    DataLength { pubkey: Seq<u8>, actual: nat, expected: nat },
    MissingCurrentIndex { pubkey: Seq<u8>, len: nat },
    InstructionPayload { pubkey: Seq<u8>, prefix_len: nat },
    NotLoaded { pubkey: Seq<u8> },
    NotCommitted { pubkey: Seq<u8> },
}

impl View for AccountMismatch {
    type V = MismatchView;

    open spec fn view(&self) -> MismatchView {
        match self {
            AccountMismatch::HashBlob { pubkey } => MismatchView::HashBlob { pubkey: pubkey@ },
            AccountMismatch::Lamports { pubkey, actual, expected } =>
                MismatchView::Lamports { pubkey: pubkey@, actual: *actual, expected: *expected },
            AccountMismatch::Owner { pubkey, actual, expected } =>
                MismatchView::Owner { pubkey: pubkey@, actual: actual@, expected: expected@ },
            AccountMismatch::RentEpoch { pubkey, actual, expected } =>
                MismatchView::RentEpoch { pubkey: pubkey@, actual: *actual, expected: *expected },
            AccountMismatch::Executable { pubkey, actual, expected } =>
                MismatchView::Executable { pubkey: pubkey@, actual: *actual, expected: *expected },
            AccountMismatch::Data { pubkey, actual, expected } =>
                MismatchView::Data { pubkey: pubkey@, actual: actual@, expected: expected@ },
            AccountMismatch::DataLength { pubkey, actual, expected } =>
                MismatchView::DataLength { pubkey: pubkey@, actual: *actual as nat, expected: *expected as nat },
            AccountMismatch::MissingCurrentIndex { pubkey, len } =>
                MismatchView::MissingCurrentIndex { pubkey: pubkey@, len: *len as nat },
            AccountMismatch::InstructionPayload { pubkey, prefix_len } =>
                MismatchView::InstructionPayload { pubkey: pubkey@, prefix_len: *prefix_len as nat },
            AccountMismatch::NotLoaded { pubkey } => MismatchView::NotLoaded { pubkey: pubkey@ },
            AccountMismatch::NotCommitted { pubkey } => MismatchView::NotCommitted { pubkey: pubkey@ },
        }
    }
}

/// The views of a list of mismatches.
pub open spec fn mismatch_views(ms: Seq<AccountMismatch>) -> Seq<MismatchView> {
    ms.map_values(|m: AccountMismatch| m@)
}

} // verus!
