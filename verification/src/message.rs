use vstd::prelude::*;
use crate::address::Address;
use crate::bytes::copy_bytes;
use solana_instruction::{BorrowedAccountMeta, BorrowedInstruction};
use solana_pubkey::Pubkey;

verus! {

/// An instruction of a sanitized message: indexes into the message's
/// account keys, and the instruction data.
#[derive(Debug)]
pub struct CompiledInstruction {
    pub program_id_index: u8,
    pub accounts: Vec<u8>,
    pub data: Vec<u8>,
}

/// What the replay needs of a sanitized transaction message: its account
/// keys, whether each key signs and is writable, and its instructions.
#[derive(Debug)]
pub struct MessageModel {
    pub account_keys: Vec<Address>,
    pub is_signer: Vec<bool>,
    pub is_writable: Vec<bool>,
    pub instructions: Vec<CompiledInstruction>,
}

impl MessageModel {
    /// The flags cover every key and every index of the instructions points
    /// at a key, as in any sanitized message.
    pub open spec fn wf(&self) -> bool {
        &&& self.is_signer@.len() == self.account_keys@.len()
        &&& self.is_writable@.len() == self.account_keys@.len()
        &&& forall|i: int| 0 <= i < self.instructions@.len() ==> {
            &&& (#[trigger] self.instructions@[i]).program_id_index < self.account_keys@.len()
            &&& forall|j: int| 0 <= j < self.instructions@[i].accounts@.len()
                ==> #[trigger] self.instructions@[i].accounts@[j] < self.account_keys@.len()
        }
    }

    /// Whether the message is well formed in the sense of `wf`.
    pub fn check_wf(&self) -> (r: bool)
        ensures
            r == self.wf(),
    {
        let n = self.account_keys.len();
        if self.is_signer.len() != n || self.is_writable.len() != n {
            return false;
        }
        let mut i: usize = 0;
        while i < self.instructions.len()
            invariant
                i <= self.instructions@.len(),
                n == self.account_keys@.len(),
                self.is_signer@.len() == n,
                self.is_writable@.len() == n,
                forall|k: int| 0 <= k < i ==> {
                    &&& (#[trigger] self.instructions@[k]).program_id_index < n
                    &&& forall|j: int| 0 <= j < self.instructions@[k].accounts@.len()
                        ==> #[trigger] self.instructions@[k].accounts@[j] < n
                },
            decreases self.instructions@.len() - i,
        {
            let ix = &self.instructions[i];
            if ix.program_id_index as usize >= n {
                return false;
            }
            let mut j: usize = 0;
            while j < ix.accounts.len()
                invariant
                    j <= ix.accounts@.len(),
                    n == self.account_keys@.len(),
                    i < self.instructions@.len(),
                    ix == self.instructions@[i as int],
                    forall|m: int| 0 <= m < j ==> #[trigger] ix.accounts@[m] < n,
                decreases ix.accounts@.len() - j,
            {
                if ix.accounts[j] as usize >= n {
                    return false;
                }
                j = j + 1;
            }
            i = i + 1;
        }
        true
    }
}

/// An account reference of a decompiled instruction.
#[derive(Clone, Copy, Debug)]
pub struct AccountMeta {
    pub pubkey: Address,
    pub is_signer: bool,
    pub is_writable: bool,
}

/// An instruction with its program and accounts resolved to addresses.
#[derive(Debug)]
pub struct DecompiledInstruction {
    pub program_id: Address,
    pub accounts: Vec<AccountMeta>,
    pub data: Vec<u8>,
}

/// The plain value of a decompiled instruction: program id, account metas
/// (key, signer, writable) and data.
pub open spec fn instruction_view(d: DecompiledInstruction) -> (Seq<u8>, Seq<(Seq<u8>, bool, bool)>, Seq<u8>) {
    (
        d.program_id@,
        d.accounts@.map_values(|m: AccountMeta| (m.pubkey@, m.is_signer, m.is_writable)),
        d.data@,
    )
}

/// The decompiled form of the `i`-th instruction of `m`.
pub open spec fn decompiled_instruction(m: MessageModel, i: int) -> (Seq<u8>, Seq<(Seq<u8>, bool, bool)>, Seq<u8>) {
    let ix = m.instructions@[i];
    (
        m.account_keys@[ix.program_id_index as int]@,
        ix.accounts@.map_values(|k: u8| (
            m.account_keys@[k as int]@,
            m.is_signer@[k as int],
            m.is_writable@[k as int],
        )),
        ix.data@,
    )
}

/// The decompiled instructions of a message, in order.
pub open spec fn decompiled(m: MessageModel) -> Seq<(Seq<u8>, Seq<(Seq<u8>, bool, bool)>, Seq<u8>)> {
    Seq::new(m.instructions@.len(), |i: int| decompiled_instruction(m, i))
}

/// The instructions sysvar data that `solana_instructions_sysvar` builds for
/// a list of decompiled instructions.
pub uninterp spec fn instructions_sysvar_data(instructions: Seq<(Seq<u8>, Seq<(Seq<u8>, bool, bool)>, Seq<u8>)>) -> Seq<u8>;

/// `d` is the `i`-th instruction of `m` with its program and accounts
/// resolved through the message's account keys: the program at the
/// instruction's program index, each account at its account index with the
/// signer and writable flags of that index, and the instruction's data.
pub open spec fn decompiles(m: MessageModel, i: int, d: DecompiledInstruction) -> bool {
    let ix = m.instructions@[i];
    &&& d.program_id@ == m.account_keys@[ix.program_id_index as int]@
    &&& d.data@ == ix.data@
    &&& d.accounts@.len() == ix.accounts@.len()
    &&& forall|j: int| 0 <= j < ix.accounts@.len() ==> {
        let k = ix.accounts@[j] as int;
        &&& (#[trigger] d.accounts@[j]).pubkey@ == m.account_keys@[k]@
        &&& d.accounts@[j].is_signer == m.is_signer@[k]
        &&& d.accounts@[j].is_writable == m.is_writable@[k]
    }
}

/// The decompiled instructions keep the message's order: the `i`-th one has
/// the program at the `i`-th instruction's program index, and that
/// instruction's accounts (keys and flags at its account indices) and data.
pub proof fn lemma_decompiled_in_message_order(m: MessageModel, i: int)
    requires
        0 <= i < m.instructions@.len(),
    ensures
        decompiled(m).len() == m.instructions@.len(),
        decompiled(m)[i].0 == m.account_keys@[m.instructions@[i].program_id_index as int]@,
        decompiled(m)[i].2 == m.instructions@[i].data@,
        decompiled(m)[i].1.len() == m.instructions@[i].accounts@.len(),
        forall|j: int| 0 <= j < m.instructions@[i].accounts@.len() ==> {
            let k = m.instructions@[i].accounts@[j] as int;
            #[trigger] decompiled(m)[i].1[j] == (m.account_keys@[k]@, m.is_signer@[k], m.is_writable@[k])
        },
{
}

/// Resolves the instructions of a well-formed message to addresses, as the
/// runtime does when it builds the instructions sysvar.
pub fn decompile_instructions(message: &MessageModel) -> (r: Vec<DecompiledInstruction>)
    requires
        message.wf(),
    ensures
        r@.map_values(|d: DecompiledInstruction| instruction_view(d)) == decompiled(*message),
        r@.len() == message.instructions@.len(),
        forall|i: int| 0 <= i < message.instructions@.len() ==> {
            let ix = message.instructions@[i];
            &&& (#[trigger] r@[i]).program_id@ == message.account_keys@[ix.program_id_index as int]@
            &&& r@[i].data@ == ix.data@
            &&& r@[i].accounts@.len() == ix.accounts@.len()
            &&& forall|j: int| 0 <= j < ix.accounts@.len() ==> {
                let k = ix.accounts@[j] as int;
                &&& (#[trigger] r@[i].accounts@[j]).pubkey@ == message.account_keys@[k]@
                &&& r@[i].accounts@[j].is_signer == message.is_signer@[k]
                &&& r@[i].accounts@[j].is_writable == message.is_writable@[k]
            }
        },
{
    let mut r: Vec<DecompiledInstruction> = Vec::new();
    let mut i: usize = 0;
    while i < message.instructions.len()
        invariant
            i <= message.instructions@.len(),
            message.wf(),
            r@.len() == i,
            forall|k: int| 0 <= k < i ==> instruction_view(#[trigger] r@[k]) == decompiled_instruction(*message, k),
            forall|k: int| 0 <= k < i ==> decompiles(*message, k, #[trigger] r@[k]),
        decreases message.instructions@.len() - i,
    {
        let ix = &message.instructions[i];
        assert(ix.program_id_index < message.account_keys@.len());
        let mut accounts: Vec<AccountMeta> = Vec::new();
        let mut j: usize = 0;
        while j < ix.accounts.len()
            invariant
                j <= ix.accounts@.len(),
                message.wf(),
                ix == message.instructions@[i as int],
                0 <= i < message.instructions@.len(),
                accounts@.len() == j,
                forall|m: int| 0 <= m < j ==> (#[trigger] accounts@[m]).pubkey@ == message.account_keys@[ix.accounts@[m] as int]@
                    && accounts@[m].is_signer == message.is_signer@[ix.accounts@[m] as int]
                    && accounts@[m].is_writable == message.is_writable@[ix.accounts@[m] as int],
            decreases ix.accounts@.len() - j,
        {
            let k = ix.accounts[j] as usize;
            assert(ix.accounts@[j as int] < message.account_keys@.len());
            accounts.push(AccountMeta {
                pubkey: message.account_keys[k],
                is_signer: message.is_signer[k],
                is_writable: message.is_writable[k],
            });
            j = j + 1;
        }
        let d = DecompiledInstruction {
            program_id: message.account_keys[ix.program_id_index as usize],
            accounts,
            data: copy_bytes(ix.data.as_slice()),
        };
        assert(instruction_view(d) =~~= decompiled_instruction(*message, i as int));
        r.push(d);
        i = i + 1;
    }
    assert(r@.map_values(|d: DecompiledInstruction| instruction_view(d)) =~= decompiled(*message));
    r
}

/// Calls `solana_instructions_sysvar::construct_instructions_data` on the
/// instructions borrowed as `BorrowedInstruction`s. The bytes are named by
/// `instructions_sysvar_data`; the source ends them with two zero bytes of
/// room for the current-instruction index.
#[verifier::external_body]
pub(crate) fn construct_instructions_data(instructions: &Vec<DecompiledInstruction>) -> (r: Vec<u8>)
    ensures
        r@ == instructions_sysvar_data(instructions@.map_values(|d: DecompiledInstruction| instruction_view(d))),
        r@.len() >= 2,
        r@[r@.len() - 2] == 0 && r@[r@.len() - 1] == 0,
{
    let keys: Vec<(Pubkey, Vec<Pubkey>)> = instructions.iter()
        .map(|ix| (Pubkey::from(ix.program_id.0), ix.accounts.iter().map(|m| Pubkey::from(m.pubkey.0)).collect()))
        .collect();
    let borrowed: Vec<BorrowedInstruction> = instructions.iter().zip(&keys)
        .map(|(ix, (program_id, pubkeys))| BorrowedInstruction {
            program_id,
            accounts: ix.accounts.iter().zip(pubkeys)
                .map(|(m, pubkey)| BorrowedAccountMeta { pubkey, is_signer: m.is_signer, is_writable: m.is_writable })
                .collect(),
            data: &ix.data,
        })
        .collect();
    solana_instructions_sysvar::construct_instructions_data(&borrowed)
}

} // verus!
