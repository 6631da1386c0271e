use vstd::prelude::*;
use std::sync::Arc;
use crate::address::Address;
use crate::blob::FixtureBlob;
use crate::result::ExecutionResult;

verus! {

/// Bit of `FixtureAccount::flags` that marks an executable account.
pub const FIXTURE_ACCOUNT_FLAG_EXECUTABLE: u8 = 1;

/// Everything needed to replay one captured transaction.
#[derive(Debug)]
pub struct TransactionFixture {
    pub schema_version: u32,
    pub slot: u64,
    pub recent_blockhash: [u8; 32],
    pub signature: [u8; 64],
    /// Serialized client version of the capturing node.
    pub client_version: Vec<u8>,
    pub enabled_features: Vec<Address>,
    pub lamports_per_signature: u64,
    /// Serialized versioned transaction.
    pub transaction: Vec<u8>,
    pub alt_writable: Vec<Address>,
    pub alt_readonly: Vec<Address>,
    pub pre_accounts: Vec<FixtureAccount>,
    pub programs: Vec<FixtureProgramData>,
    pub sysvars: Arc<Vec<FixtureSysvar>>,
    pub result: ExecutionResult,
    pub post_accounts: Vec<FixtureAccount>,
}

/// An account as captured before or after execution.
#[derive(Debug)]
pub struct FixtureAccount {
    pub pubkey: Address,
    pub owner: Address,
    pub lamports: u64,
    pub rent_epoch: u64,
    pub flags: u8,
    pub data: FixtureBlob,
}

impl FixtureAccount {
    /// Whether the executable flag bit is set.
    pub fn is_executable(&self) -> (r: bool)
        ensures
            r == (self.flags & FIXTURE_ACCOUNT_FLAG_EXECUTABLE != 0),
    {
        self.flags & FIXTURE_ACCOUNT_FLAG_EXECUTABLE != 0
    }
}

/// The program data of an upgradeable-loader program.
#[derive(Debug)]
pub struct FixtureProgramData {
    pub program_id: Address,
    pub programdata: FixtureBlob,
}

/// The contents of one sysvar account.
#[derive(Debug)]
pub struct FixtureSysvar {
    pub sysvar_id: Address,
    pub data: Vec<u8>,
}

} // verus!
