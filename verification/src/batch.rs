use vstd::prelude::*;
use std::sync::Arc;
use crate::address::Address;
use crate::blob::FixtureBlob;
use crate::bytes::copy_bytes;
use crate::fixture::{
    FixtureAccount, FixtureProgramData, FixtureSysvar, TransactionFixture,
    FIXTURE_ACCOUNT_FLAG_EXECUTABLE,
};
use crate::result::ExecutionResult;

verus! {

/// Schema version of `TransactionFixturesBatch`; bumped on incompatible changes.
pub const BATCH_SCHEMA_VERSION: u32 = 0;

/// Index into `TransactionFixturesBatch::blobs`.
pub type BlobIndex = u32;

/// A blob field on the batch wire: small payloads stay inline, spilled
/// payloads point into the shared blob table of the batch.
#[derive(Clone, Debug)]
pub enum FixtureBlobBatch {
    Inline(Vec<u8>),
    Shared(BlobIndex),
}

impl FixtureBlobBatch {
    /// The inline bytes, or `None` for a shared reference.
    pub fn inline_bytes(&self) -> (r: Option<&[u8]>)
        ensures
            r is Some <==> self is Inline,
            r matches Some(b) ==> b@ == self->Inline_0@,
    {
        match self {
            FixtureBlobBatch::Inline(d) => Some(d.as_slice()),
            FixtureBlobBatch::Shared(_) => None,
        }
    }

    /// The shared blob index, or `None` for inline bytes.
    pub fn shared_index(&self) -> (r: Option<BlobIndex>)
        ensures
            r is Some <==> self is Shared,
            r matches Some(i) ==> i == self->Shared_0,
    {
        match self {
            FixtureBlobBatch::Inline(_) => None,
            FixtureBlobBatch::Shared(i) => Some(*i),
        }
    }

    /// A shared reference points into a table of `n` blobs.
    pub open spec fn resolvable(self, n: nat) -> bool {
        self matches FixtureBlobBatch::Shared(i) ==> i < n
    }
}

/// The bytes a batch blob stands for, given the shared blob table.
pub open spec fn resolved_bytes(blob: FixtureBlobBatch, blobs: Seq<Vec<u8>>) -> Seq<u8> {
    match blob {
        FixtureBlobBatch::Inline(d) => d@,
        FixtureBlobBatch::Shared(i) => blobs[i as int]@,
    }
}

/// `inlined` is the inline form of the batch blob `blob`.
pub open spec fn blob_inlined(inlined: FixtureBlob, blob: FixtureBlobBatch, blobs: Seq<Vec<u8>>) -> bool {
    &&& inlined is Inline
    &&& inlined->Inline_0@ == resolved_bytes(blob, blobs)
}

/// Account entry of the batch wire, whose data may be a shared blob.
#[derive(Clone, Debug)]
pub struct FixtureAccountBatch {
    pub pubkey: Address,
    pub owner: Address,
    pub lamports: u64,
    pub rent_epoch: u64,
    pub flags: u8,
    pub data: FixtureBlobBatch,
}

impl FixtureAccountBatch {
    /// Whether the executable flag bit is set.
    pub fn is_executable(&self) -> (r: bool)
        ensures
            r == (self.flags & FIXTURE_ACCOUNT_FLAG_EXECUTABLE != 0),
    {
        self.flags & FIXTURE_ACCOUNT_FLAG_EXECUTABLE != 0
    }
}

/// `a` is the batch account `b` with its data resolved against `blobs`.
pub open spec fn account_inlined(a: FixtureAccount, b: FixtureAccountBatch, blobs: Seq<Vec<u8>>) -> bool {
    &&& a.pubkey == b.pubkey
    &&& a.owner == b.owner
    &&& a.lamports == b.lamports
    &&& a.rent_epoch == b.rent_epoch
    &&& a.flags == b.flags
    &&& blob_inlined(a.data, b.data, blobs)
}

/// Program data entry of the batch wire.
#[derive(Clone, Debug)]
pub struct FixtureProgramDataBatch {
    pub program_id: Address,
    pub programdata: FixtureBlobBatch,
}

/// `p` is the batch program entry `b` with its data resolved against `blobs`.
pub open spec fn program_inlined(p: FixtureProgramData, b: FixtureProgramDataBatch, blobs: Seq<Vec<u8>>) -> bool {
    &&& p.program_id == b.program_id
    &&& blob_inlined(p.programdata, b.programdata, blobs)
}

/// Every account in `accounts` is the corresponding batch account resolved.
pub open spec fn accounts_inlined(
    accounts: Seq<FixtureAccount>,
    batch: Seq<FixtureAccountBatch>,
    blobs: Seq<Vec<u8>>,
) -> bool {
    &&& accounts.len() == batch.len()
    &&& forall|i: int| 0 <= i < batch.len() ==> account_inlined(#[trigger] accounts[i], batch[i], blobs)
}

/// Every shared reference of the batch accounts points into `n` blobs.
pub open spec fn accounts_resolvable(batch: Seq<FixtureAccountBatch>, n: nat) -> bool {
    forall|i: int| 0 <= i < batch.len() ==> (#[trigger] batch[i]).data.resolvable(n)
}

/// Fixture record on the batch wire, with blobs given as shared indices.
#[derive(Clone, Debug)]
pub struct TransactionFixtureBatch {
    pub schema_version: u32,
    pub slot: u64,
    pub recent_blockhash: [u8; 32],
    pub signature: [u8; 64],
    pub client_version: Vec<u8>,
    pub enabled_features: Vec<Address>,
    pub lamports_per_signature: u64,
    pub transaction: Vec<u8>,
    pub alt_writable: Vec<Address>,
    pub alt_readonly: Vec<Address>,
    pub pre_accounts: Vec<FixtureAccountBatch>,
    pub programs: Vec<FixtureProgramDataBatch>,
    pub sysvars: Arc<Vec<FixtureSysvar>>,
    pub result: ExecutionResult,
    pub post_accounts: Vec<FixtureAccountBatch>,
}

/// Response body for a batch of fixtures: the deduplicated blob payloads and
/// one optional fixture per requested signature, in request order.
#[derive(Clone, Debug)]
pub struct TransactionFixturesBatch {
    pub batch_schema_version: u32,
    pub blobs: Vec<Vec<u8>>,
    pub fixtures: Vec<Option<TransactionFixtureBatch>>,
}

/// The inline form of a batch blob: shared references are replaced by a
/// copy of the referenced blob.
pub fn resolve_blob_batch(blob: FixtureBlobBatch, blobs: &[Vec<u8>]) -> (r: FixtureBlob)
    requires
        blob.resolvable(blobs@.len()),
    ensures
        blob_inlined(r, blob, blobs@),
        r matches FixtureBlob::Inline(d) && d@ == match blob {
            FixtureBlobBatch::Inline(x) => x@,
            FixtureBlobBatch::Shared(k) => blobs@[k as int]@,
        },
{
    match blob {
        FixtureBlobBatch::Inline(bytes) => FixtureBlob::Inline(bytes),
        FixtureBlobBatch::Shared(index) => {
            let bytes = &blobs[index as usize];
            FixtureBlob::Inline(copy_bytes(bytes.as_slice()))
        },
    }
}

fn resolve_blob_ref(blob: &FixtureBlobBatch, blobs: &[Vec<u8>]) -> (r: FixtureBlob)
    requires
        blob.resolvable(blobs@.len()),
    ensures
        blob_inlined(r, *blob, blobs@),
{
    match blob {
        FixtureBlobBatch::Inline(bytes) => FixtureBlob::Inline(copy_bytes(bytes.as_slice())),
        FixtureBlobBatch::Shared(index) => {
            let bytes = &blobs[*index as usize];
            FixtureBlob::Inline(copy_bytes(bytes.as_slice()))
        },
    }
}

fn inline_accounts(accounts: &Vec<FixtureAccountBatch>, blobs: &[Vec<u8>]) -> (r: Vec<FixtureAccount>)
    requires
        accounts_resolvable(accounts@, blobs@.len()),
    ensures
        accounts_inlined(r@, accounts@, blobs@),
{
    let mut r: Vec<FixtureAccount> = Vec::new();
    let mut i: usize = 0;
    while i < accounts.len()
        invariant
            i <= accounts@.len(),
            accounts_resolvable(accounts@, blobs@.len()),
            r@.len() == i,
            forall|j: int| 0 <= j < i ==> account_inlined(#[trigger] r@[j], accounts@[j], blobs@),
        decreases accounts@.len() - i,
    {
        let a = &accounts[i];
        assert(a.data.resolvable(blobs@.len()));
        let data = resolve_blob_ref(&a.data, blobs);
        r.push(FixtureAccount {
            pubkey: a.pubkey,
            owner: a.owner,
            lamports: a.lamports,
            rent_epoch: a.rent_epoch,
            flags: a.flags,
            data,
        });
        i = i + 1;
    }
    r
}

fn inline_programs(programs: &Vec<FixtureProgramDataBatch>, blobs: &[Vec<u8>]) -> (r: Vec<FixtureProgramData>)
    requires
        forall|i: int| 0 <= i < programs@.len() ==> (#[trigger] programs@[i]).programdata.resolvable(blobs@.len()),
    ensures
        r@.len() == programs@.len(),
        forall|i: int| 0 <= i < programs@.len() ==> program_inlined(#[trigger] r@[i], programs@[i], blobs@),
{
    let mut r: Vec<FixtureProgramData> = Vec::new();
    let mut i: usize = 0;
    while i < programs.len()
        invariant
            i <= programs@.len(),
            forall|i: int| 0 <= i < programs@.len() ==> (#[trigger] programs@[i]).programdata.resolvable(blobs@.len()),
            r@.len() == i,
            forall|j: int| 0 <= j < i ==> program_inlined(#[trigger] r@[j], programs@[j], blobs@),
        decreases programs@.len() - i,
    {
        let p = &programs[i];
        assert(p.programdata.resolvable(blobs@.len()));
        let programdata = resolve_blob_ref(&p.programdata, blobs);
        r.push(FixtureProgramData { program_id: p.program_id, programdata });
        i = i + 1;
    }
    r
}

impl TransactionFixtureBatch {
    /// Every shared blob reference of this fixture points into `n` blobs.
    pub open spec fn resolvable(self, n: nat) -> bool {
        &&& accounts_resolvable(self.pre_accounts@, n)
        &&& accounts_resolvable(self.post_accounts@, n)
        &&& forall|i: int| 0 <= i < self.programs@.len() ==> (#[trigger] self.programs@[i]).programdata.resolvable(n)
    }

    /// Whether every shared blob reference of this fixture points into `blobs`.
    pub fn references_resolve(&self, blobs: &[Vec<u8>]) -> (r: bool)
        ensures
            r == self.resolvable(blobs@.len()),
    {
        let n = blobs.len();
        let mut i: usize = 0;
        while i < self.pre_accounts.len()
            invariant
                i <= self.pre_accounts@.len(),
                n == blobs@.len(),
                forall|j: int| 0 <= j < i ==> (#[trigger] self.pre_accounts@[j]).data.resolvable(n as nat),
            decreases self.pre_accounts@.len() - i,
        {
            if let Some(k) = self.pre_accounts[i].data.shared_index() {
                if k as usize >= n {
                    return false;
                }
            }
            i = i + 1;
        }
        let mut i: usize = 0;
        while i < self.post_accounts.len()
            invariant
                i <= self.post_accounts@.len(),
                n == blobs@.len(),
                accounts_resolvable(self.pre_accounts@, n as nat),
                forall|j: int| 0 <= j < i ==> (#[trigger] self.post_accounts@[j]).data.resolvable(n as nat),
            decreases self.post_accounts@.len() - i,
        {
            if let Some(k) = self.post_accounts[i].data.shared_index() {
                if k as usize >= n {
                    return false;
                }
            }
            i = i + 1;
        }
        let mut i: usize = 0;
        while i < self.programs.len()
            invariant
                i <= self.programs@.len(),
                n == blobs@.len(),
                accounts_resolvable(self.pre_accounts@, n as nat),
                accounts_resolvable(self.post_accounts@, n as nat),
                forall|j: int| 0 <= j < i ==> (#[trigger] self.programs@[j]).programdata.resolvable(n as nat),
            decreases self.programs@.len() - i,
        {
            if let Some(k) = self.programs[i].programdata.shared_index() {
                if k as usize >= n {
                    return false;
                }
            }
            i = i + 1;
        }
        true
    }

    /// Expands shared blob indices into a fully inlined fixture for replay.
    /// Every other field is carried over unchanged.
    pub fn into_inlined(self, blobs: &[Vec<u8>]) -> (r: TransactionFixture)
        requires
            self.resolvable(blobs@.len()),
        ensures
            r.schema_version == self.schema_version,
            r.slot == self.slot,
            r.recent_blockhash == self.recent_blockhash,
            r.signature == self.signature,
            r.client_version == self.client_version,
            r.enabled_features == self.enabled_features,
            r.lamports_per_signature == self.lamports_per_signature,
            r.transaction == self.transaction,
            r.alt_writable == self.alt_writable,
            r.alt_readonly == self.alt_readonly,
            accounts_inlined(r.pre_accounts@, self.pre_accounts@, blobs@),
            r.programs@.len() == self.programs@.len(),
            forall|i: int| 0 <= i < self.programs@.len()
                ==> program_inlined(#[trigger] r.programs@[i], self.programs@[i], blobs@),
            r.sysvars == self.sysvars,
            r.result == self.result,
            accounts_inlined(r.post_accounts@, self.post_accounts@, blobs@),
            r.pre_accounts@.len() == self.pre_accounts@.len(),
            forall|i: int| 0 <= i < self.pre_accounts@.len() ==> {
                let (a, b) = (#[trigger] r.pre_accounts@[i], self.pre_accounts@[i]);
                &&& a.pubkey == b.pubkey
                &&& a.owner == b.owner
                &&& a.lamports == b.lamports
                &&& a.rent_epoch == b.rent_epoch
                &&& a.flags == b.flags
                &&& a.data matches FixtureBlob::Inline(d) && d@ == match b.data {
                    FixtureBlobBatch::Inline(x) => x@,
                    FixtureBlobBatch::Shared(k) => blobs@[k as int]@,
                }
            },
            r.post_accounts@.len() == self.post_accounts@.len(),
            forall|i: int| 0 <= i < self.post_accounts@.len() ==> {
                let (a, b) = (#[trigger] r.post_accounts@[i], self.post_accounts@[i]);
                &&& a.pubkey == b.pubkey
                &&& a.owner == b.owner
                &&& a.lamports == b.lamports
                &&& a.rent_epoch == b.rent_epoch
                &&& a.flags == b.flags
                &&& a.data matches FixtureBlob::Inline(d) && d@ == match b.data {
                    FixtureBlobBatch::Inline(x) => x@,
                    FixtureBlobBatch::Shared(k) => blobs@[k as int]@,
                }
            },
            forall|i: int| 0 <= i < self.programs@.len() ==> {
                let (p, b) = (#[trigger] r.programs@[i], self.programs@[i]);
                &&& p.program_id == b.program_id
                &&& p.programdata matches FixtureBlob::Inline(d) && d@ == match b.programdata {
                    FixtureBlobBatch::Inline(x) => x@,
                    FixtureBlobBatch::Shared(k) => blobs@[k as int]@,
                }
            },
    {
        let pre_accounts = inline_accounts(&self.pre_accounts, blobs);
        let programs = inline_programs(&self.programs, blobs);
        let post_accounts = inline_accounts(&self.post_accounts, blobs);
        TransactionFixture {
            schema_version: self.schema_version,
            slot: self.slot,
            recent_blockhash: self.recent_blockhash,
            signature: self.signature,
            client_version: self.client_version,
            enabled_features: self.enabled_features,
            lamports_per_signature: self.lamports_per_signature,
            transaction: self.transaction,
            alt_writable: self.alt_writable,
            alt_readonly: self.alt_readonly,
            pre_accounts,
            programs,
            sysvars: self.sysvars,
            result: self.result,
            post_accounts,
        }
    }
}

/// Accounts resolved from a batch hold their data inline, as the bank
/// builder requires.
pub proof fn lemma_inlined_accounts_are_inline(accounts: Seq<FixtureAccount>, batch: Seq<FixtureAccountBatch>, blobs: Seq<Vec<u8>>)
    requires
        accounts_inlined(accounts, batch, blobs),
    ensures
        forall|i: int| 0 <= i < accounts.len() ==> (#[trigger] accounts[i]).data is Inline,
{
    assert forall|i: int| 0 <= i < accounts.len() implies (#[trigger] accounts[i]).data is Inline by {
        assert(account_inlined(accounts[i], batch[i], blobs));
    }
}

/// Resolving a batch blob keeps inline bytes as they are and copies a
/// shared blob's bytes out of the table.
pub proof fn lemma_resolution_keeps_bytes(inlined: FixtureBlob, blob: FixtureBlobBatch, blobs: Seq<Vec<u8>>)
    requires
        blob_inlined(inlined, blob, blobs),
    ensures
        blob matches FixtureBlobBatch::Inline(d) ==> inlined->Inline_0@ == d@,
        blob matches FixtureBlobBatch::Shared(i) ==> inlined->Inline_0@ == blobs[i as int]@,
{
}

/// An inlined account is its batch account with every field carried over
/// unchanged (address, owner, lamports, rent epoch, flags) and its data
/// inline: the batch account's inline bytes, or the shared blob it points to.
pub proof fn lemma_inlined_account_fields(a: FixtureAccount, b: FixtureAccountBatch, blobs: Seq<Vec<u8>>)
    requires
        account_inlined(a, b, blobs),
    ensures
        a.pubkey == b.pubkey,
        a.owner == b.owner,
        a.lamports == b.lamports,
        a.rent_epoch == b.rent_epoch,
        a.flags == b.flags,
        a.data matches FixtureBlob::Inline(d) && d@ == match b.data {
            FixtureBlobBatch::Inline(x) => x@,
            FixtureBlobBatch::Shared(k) => blobs[k as int]@,
        },
{
}

} // verus!
