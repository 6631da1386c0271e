use vstd::prelude::*;
use crate::address::Address;
use crate::args::string_bytes;
use crate::batch::TransactionFixturesBatch;
use crate::ids::{vote_id, vote_key};
use crate::text::text_bytes;

verus! {

/// Why a decimal integer did not parse, as `core::num::IntErrorKind` names it.
#[derive(Clone, Copy, Debug, PartialEq, Eq, Structural)]
pub enum IntErrorKind {
    Empty,
    InvalidDigit,
    PosOverflow,
}

pub open spec fn is_digit(b: u8) -> bool {
    48 <= b <= 57
}

/// Reads decimal digits left to right from index `i` on, `acc` being the
/// value of the digits before: the first non-digit is an invalid digit, a
/// value beyond `u64::MAX` an overflow.
pub open spec fn decimal_scan(d: Seq<u8>, i: int, acc: int) -> Result<u64, IntErrorKind>
    decreases d.len() - i,
{
    if i < 0 || i >= d.len() {
        Ok(acc as u64)
    } else if !is_digit(d[i]) {
        Err(IntErrorKind::InvalidDigit)
    } else if acc * 10 + (d[i] - 48) > u64::MAX {
        Err(IntErrorKind::PosOverflow)
    } else {
        decimal_scan(d, i + 1, acc * 10 + (d[i] - 48))
    }
}

/// An unsigned decimal integer as `u64::from_str` reads it: an optional
/// leading `+`, then at least one digit.
pub open spec fn parsed_u64(t: Seq<u8>) -> Result<u64, IntErrorKind> {
    if t.len() == 0 {
        Err(IntErrorKind::Empty)
    } else if t.len() == 1 && (t[0] == 43 || t[0] == 45) {
        Err(IntErrorKind::InvalidDigit)
    } else if t[0] == 43 {
        decimal_scan(t, 1, 0)
    } else {
        decimal_scan(t, 0, 0)
    }
}

/// Parses an unsigned decimal integer, as `u64::from_str` does.
pub fn parse_u64(text: &str) -> (r: Result<u64, IntErrorKind>)
    ensures
        r == parsed_u64(text_bytes(text)),
{
    let b = text.as_bytes();
    if b.len() == 0 {
        return Err(IntErrorKind::Empty);
    }
    if b.len() == 1 && (b[0] == 43 || b[0] == 45) {
        return Err(IntErrorKind::InvalidDigit);
    }
    let mut i: usize = if b[0] == 43 { 1 } else { 0 };
    let ghost start = i as int;
    let mut acc: u64 = 0;
    while i < b.len()
        invariant
            start <= i <= b@.len(),
            b@ == text_bytes(text),
            parsed_u64(b@) == decimal_scan(b@, i as int, acc as int),
        decreases b@.len() - i,
    {
        let c = b[i];
        if c < 48 || c > 57 {
            return Err(IntErrorKind::InvalidDigit);
        }
        let digit = (c - 48) as u64;
        if acc > (u64::MAX - digit) / 10 {
            assert(acc * 10 + digit > u64::MAX) by (nonlinear_arith)
                requires
                    acc > (u64::MAX - digit) / 10,
                    digit <= 9,
            ;
            return Err(IntErrorKind::PosOverflow);
        }
        assert(acc * 10 + digit <= u64::MAX) by (nonlinear_arith)
            requires
                acc <= (u64::MAX - digit) / 10,
                digit <= 9,
        ;
        acc = acc * 10 + digit;
        i = i + 1;
    }
    Ok(acc)
}

/// The arguments of the block command.
#[derive(Debug)]
pub struct BlockArgs {
    pub slot: u64,
    pub solana_rpc_url: String,
    pub penrose_rpc_url: String,
}

/// Why the arguments of the block command were refused.
#[derive(Debug)]
pub enum BlockArgError {
    /// Fewer than `block <slot> <solana_rpc_url>` were given.
    Usage,
    /// The slot is no unsigned decimal integer.
    BadSlot { text: String, kind: IntErrorKind },
}

/// Parses `<program> block <slot> <solana_rpc_url> [penrose_rpc_url]`. The
/// penrose URL falls back to `penrose_env` (the environment's setting),
/// then to the Solana URL.
pub fn parse_block_args(args: &[String], penrose_env: Option<String>) -> (r: Result<BlockArgs, BlockArgError>)
    ensures
        args@.len() < 4 ==> r matches Err(BlockArgError::Usage),
        args@.len() >= 4 ==> match parsed_u64(string_bytes(args@[2])) {
            Err(k) => r matches Err(BlockArgError::BadSlot { text, kind }) && text@ == args@[2]@ && kind == k,
            Ok(slot) => r matches Ok(b) && b.slot == slot && b.solana_rpc_url@ == args@[3]@
                && b.penrose_rpc_url@ == (if args@.len() > 4 {
                    args@[4]@
                } else {
                    match penrose_env {
                        Some(e) => e@,
                        None => args@[3]@,
                    }
                }),
        },
{
    if args.len() < 4 {
        return Err(BlockArgError::Usage);
    }
    let slot = match parse_u64(args[2].as_str()) {
        Ok(s) => s,
        Err(kind) => return Err(BlockArgError::BadSlot { text: args[2].clone(), kind }),
    };
    let solana_rpc_url = args[3].clone();
    let penrose_rpc_url = if args.len() > 4 {
        args[4].clone()
    } else {
        match penrose_env {
            Some(e) => e,
            None => solana_rpc_url.clone(),
        }
    };
    Ok(BlockArgs { slot, solana_rpc_url, penrose_rpc_url })
}

/// What the block command reads of a transaction of the block.
#[derive(Debug)]
pub struct TransactionSummary {
    /// The static account keys of the message.
    pub static_account_keys: Vec<Address>,
    /// The program id index of each instruction.
    pub program_id_indices: Vec<u8>,
    /// The first signature, if the transaction has one.
    pub first_signature: Option<[u8; 64]>,
}

/// A transaction that has instructions, all of them calling the vote program.
pub open spec fn is_simple_vote(tx: TransactionSummary) -> bool {
    &&& tx.program_id_indices@.len() > 0
    &&& forall|i: int| 0 <= i < tx.program_id_indices@.len() ==> {
        let k = #[trigger] tx.program_id_indices@[i];
        &&& k < tx.static_account_keys@.len()
        &&& tx.static_account_keys@[k as int]@ == vote_key()
    }
}

/// Whether every instruction of the transaction calls the vote program (and
/// there is at least one): such transactions are not captured.
pub fn is_simple_vote_transaction(tx: &TransactionSummary) -> (r: bool)
    ensures
        r == is_simple_vote(*tx),
        r ==> tx.program_id_indices@.len() > 0,
        r ==> forall|i: int| 0 <= i < tx.program_id_indices@.len() ==> {
            &&& (#[trigger] tx.program_id_indices@[i]) < tx.static_account_keys@.len()
            &&& tx.static_account_keys@[tx.program_id_indices@[i] as int]@ == vote_key()
        },
        !r ==> tx.program_id_indices@.len() == 0 || exists|i: int| 0 <= i < tx.program_id_indices@.len() && {
            ||| (#[trigger] tx.program_id_indices@[i]) >= tx.static_account_keys@.len()
            ||| tx.static_account_keys@[tx.program_id_indices@[i] as int]@ != vote_key()
        },
{
    if tx.program_id_indices.len() == 0 {
        return false;
    }
    let vote = vote_id();
    let mut i: usize = 0;
    while i < tx.program_id_indices.len()
        invariant
            i <= tx.program_id_indices@.len(),
            vote@ == vote_key(),
            forall|j: int| 0 <= j < i ==> {
                let k = #[trigger] tx.program_id_indices@[j];
                &&& k < tx.static_account_keys@.len()
                &&& tx.static_account_keys@[k as int]@ == vote_key()
            },
        decreases tx.program_id_indices@.len() - i,
    {
        let k = tx.program_id_indices[i] as usize;
        if k >= tx.static_account_keys.len() {
            return false;
        }
        if !(tx.static_account_keys[k] == vote) {
            return false;
        }
        i = i + 1;
    }
    true
}

/// The signatures to replay among the transactions of a block: those that
/// decoded, are not simple votes and carry a signature, in block order.
pub open spec fn selected_signatures(txs: Seq<Option<TransactionSummary>>) -> Seq<Seq<u8>>
    decreases txs.len(),
{
    if txs.len() == 0 {
        seq![]
    } else {
        let before = selected_signatures(txs.drop_last());
        match txs.last() {
            Some(tx) => if !is_simple_vote(tx) && tx.first_signature is Some {
                before.push(tx.first_signature->0@)
            } else {
                before
            },
            None => before,
        }
    }
}

/// How many of the transactions decoded and are simple votes.
pub open spec fn vote_count(txs: Seq<Option<TransactionSummary>>) -> nat
    decreases txs.len(),
{
    if txs.len() == 0 {
        0
    } else {
        vote_count(txs.drop_last()) + match txs.last() {
            Some(tx) => if is_simple_vote(tx) { 1nat } else { 0nat },
            None => 0nat,
        }
    }
}

proof fn lemma_vote_count_bound(txs: Seq<Option<TransactionSummary>>)
    ensures
        vote_count(txs) <= txs.len(),
    decreases txs.len(),
{
    if txs.len() > 0 {
        lemma_vote_count_bound(txs.drop_last());
    }
}

/// The transactions of a block sorted for replay.
#[derive(Debug)]
pub struct BlockSelection {
    pub signatures: Vec<[u8; 64]>,
    pub total_txs: u32,
    pub vote_txs: u32,
}

/// Sorts the transactions of a block (`None` for one that did not decode):
/// counts them and the simple votes among them, and collects the first
/// signature of every other transaction that has one.
pub fn select_replay_signatures(txs: &Vec<Option<TransactionSummary>>) -> (r: BlockSelection)
    requires
        txs@.len() <= u32::MAX,
    ensures
        r.total_txs == txs@.len(),
        r.vote_txs == vote_count(txs@),
        r.signatures@.map_values(|s: [u8; 64]| s@) == selected_signatures(txs@),
{
    let mut signatures: Vec<[u8; 64]> = Vec::new();
    let mut total_txs: u32 = 0;
    let mut vote_txs: u32 = 0;
    let mut i: usize = 0;
    while i < txs.len()
        invariant
            i <= txs@.len(),
            txs@.len() <= u32::MAX,
            total_txs == i,
            vote_txs == vote_count(txs@.subrange(0, i as int)),
            signatures@.map_values(|s: [u8; 64]| s@) == selected_signatures(txs@.subrange(0, i as int)),
        decreases txs@.len() - i,
    {
        let ghost prefix = txs@.subrange(0, i as int);
        let ghost next = txs@.subrange(0, i + 1);
        assert(next.drop_last() =~= prefix);
        proof {
            lemma_vote_count_bound(prefix);
        }
        let ghost before = signatures@.map_values(|s: [u8; 64]| s@);
        total_txs = total_txs + 1;
        match &txs[i] {
            None => {},
            Some(tx) => {
                if is_simple_vote_transaction(tx) {
                    vote_txs = vote_txs + 1;
                } else {
                    match tx.first_signature {
                        Some(sig) => {
                            signatures.push(sig);
                            assert(signatures@.map_values(|s: [u8; 64]| s@) =~= before.push(sig@));
                        },
                        None => {},
                    }
                }
            },
        }
        i = i + 1;
    }
    assert(txs@.subrange(0, txs@.len() as int) =~= txs@);
    BlockSelection { signatures, total_txs, vote_txs }
}

/// Whether a batch response holds one fixture entry per requested signature.
pub fn batch_matches_request(batch: &TransactionFixturesBatch, requested: usize) -> (r: bool)
    ensures
        r == (batch.fixtures@.len() == requested),
{
    batch.fixtures.len() == requested
}

/// The lamports charged for signatures: the signatures of the transaction
/// and of its ed25519, secp256k1 and secp256r1 precompile instructions,
/// times the lamports per signature, each step saturating at `u64::MAX`.
pub fn signature_fee(
    num_transaction_signatures: u64,
    num_ed25519_signatures: u64,
    num_secp256k1_signatures: u64,
    num_secp256r1_signatures: u64,
    lamports_per_signature: u64,
) -> (r: u64)
    ensures
        ({
            let count = num_transaction_signatures + num_ed25519_signatures + num_secp256k1_signatures
                + num_secp256r1_signatures;
            let capped = if count > u64::MAX { u64::MAX as int } else { count };
            r == if capped * lamports_per_signature > u64::MAX { u64::MAX as int } else { capped * lamports_per_signature }
        }),
{
    let signature_count = num_transaction_signatures
        .saturating_add(num_ed25519_signatures)
        .saturating_add(num_secp256k1_signatures)
        .saturating_add(num_secp256r1_signatures);
    match signature_count.checked_mul(lamports_per_signature) {
        Some(fee) => fee,
        None => u64::MAX,
    }
}

/// How one slot relates to another in the replay's fork graph.
#[derive(Clone, Copy, Debug, PartialEq, Eq, Structural)]
pub enum BlockRelation {
    Ancestor,
    Equal,
    Descendant,
}

/// The fork graph of a replay: a single chain, where a lower slot is an
/// ancestor of a higher one.
#[derive(Clone, Copy, Debug)]
pub struct ReplayForkGraph;

impl ReplayForkGraph {
    pub fn relationship(&self, a: u64, b: u64) -> (r: BlockRelation)
        ensures
            a < b ==> r == BlockRelation::Ancestor,
            a == b ==> r == BlockRelation::Equal,
            a > b ==> r == BlockRelation::Descendant,
    {
        if a < b {
            BlockRelation::Ancestor
        } else if a == b {
            BlockRelation::Equal
        } else {
            BlockRelation::Descendant
        }
    }
}

/// The transaction decoded and carries a signature.
pub open spec fn signed(tx: Option<TransactionSummary>) -> bool {
    tx matches Some(t) && t.first_signature is Some
}

/// Every transaction of a block is counted once: the selected signatures and
/// the skipped votes never outnumber the transactions, and they account for
/// all of them when every transaction decodes and carries a signature.
pub proof fn lemma_selection_accounts_for_block(txs: Seq<Option<TransactionSummary>>)
    ensures
        selected_signatures(txs).len() + vote_count(txs) <= txs.len(),
        (forall|i: int| 0 <= i < txs.len() ==> signed(#[trigger] txs[i]))
            ==> selected_signatures(txs).len() + vote_count(txs) == txs.len(),
    decreases txs.len(),
{
    if txs.len() > 0 {
        let init = txs.drop_last();
        lemma_selection_accounts_for_block(init);
        if forall|i: int| 0 <= i < txs.len() ==> signed(#[trigger] txs[i]) {
            assert forall|i: int| 0 <= i < init.len() implies signed(#[trigger] init[i]) by {
                assert(init[i] == txs[i]);
            }
            assert(signed(txs[txs.len() - 1]));
        }
    }
}

/// A transaction is a simple vote exactly when it has an instruction and
/// every one of its instructions, not only some, calls the vote program
/// through a program index inside its account keys.
pub proof fn lemma_simple_vote_means_every_instruction_votes(tx: TransactionSummary)
    ensures
        is_simple_vote(tx) <==> {
            &&& tx.program_id_indices@.len() > 0
            &&& forall|i: int| 0 <= i < tx.program_id_indices@.len() ==> {
                &&& (#[trigger] tx.program_id_indices@[i]) < tx.static_account_keys@.len()
                &&& tx.static_account_keys@[tx.program_id_indices@[i] as int]@ == vote_key()
            }
        },
        !is_simple_vote(tx) && tx.program_id_indices@.len() > 0 ==> exists|i: int|
            0 <= i < tx.program_id_indices@.len() && {
                ||| (#[trigger] tx.program_id_indices@[i]) >= tx.static_account_keys@.len()
                ||| tx.static_account_keys@[tx.program_id_indices@[i] as int]@ != vote_key()
            },
{
}

/// A transaction that decoded, is no simple vote and carries a signature
/// is selected for replay: its signature comes last among the selected
/// signatures of the transactions up to it.
pub proof fn lemma_non_vote_is_selected(txs: Seq<Option<TransactionSummary>>)
    requires
        txs.len() > 0,
        txs.last() matches Some(tx) && tx.first_signature is Some && !is_simple_vote(tx),
    ensures
        selected_signatures(txs).len() > 0,
        selected_signatures(txs).last() == txs.last()->0.first_signature->0@,
{
}

/// A block whose transactions all decoded, are no simple votes and carry a
/// signature is replayed in full and in block order: the selected
/// signatures are the transactions' first signatures, one for one.
pub proof fn lemma_non_votes_selected_in_order(txs: Seq<Option<TransactionSummary>>)
    requires
        forall|i: int| 0 <= i < txs.len() ==> signed(#[trigger] txs[i]) && !is_simple_vote(txs[i]->0),
    ensures
        selected_signatures(txs) == Seq::new(txs.len(), |i: int| txs[i]->0.first_signature->0@),
        vote_count(txs) == 0,
    decreases txs.len(),
{
    if txs.len() > 0 {
        let init = txs.drop_last();
        assert forall|i: int| 0 <= i < init.len() implies signed(#[trigger] init[i]) && !is_simple_vote(init[i]->0) by {
            assert(init[i] == txs[i]);
        }
        lemma_non_votes_selected_in_order(init);
        assert(signed(txs[txs.len() - 1]));
        assert(selected_signatures(txs) =~= Seq::new(txs.len(), |i: int| txs[i]->0.first_signature->0@));
    }
}

/// Simple votes and transactions that did not decode are never replayed.
pub proof fn lemma_votes_never_selected(txs: Seq<Option<TransactionSummary>>)
    requires
        forall|i: int| 0 <= i < txs.len() ==> (#[trigger] txs[i]) is None || is_simple_vote(txs[i]->0),
    ensures
        selected_signatures(txs).len() == 0,
    decreases txs.len(),
{
    if txs.len() > 0 {
        let init = txs.drop_last();
        assert forall|i: int| 0 <= i < init.len() implies (#[trigger] init[i]) is None || is_simple_vote(init[i]->0) by {
            assert(init[i] == txs[i]);
        }
        lemma_votes_never_selected(init);
        assert(txs[txs.len() - 1] is None || is_simple_vote(txs[txs.len() - 1]->0));
    }
}

proof fn lemma_scan_append(t: Seq<u8>, c: u8, i: int, acc: int)
    requires
        0 <= i <= t.len(),
        0 <= acc <= u64::MAX,
        decimal_scan(t, i, acc) is Ok,
    ensures
        decimal_scan(t.push(c), i, acc) == ({
            let v = decimal_scan(t, i, acc)->Ok_0;
            if !(48 <= c <= 57) {
                Err::<u64, IntErrorKind>(IntErrorKind::InvalidDigit)
            } else if v * 10 + (c - 48) > u64::MAX {
                Err::<u64, IntErrorKind>(IntErrorKind::PosOverflow)
            } else {
                Ok::<u64, IntErrorKind>((v * 10 + (c - 48)) as u64)
            }
        }),
    decreases t.len() - i,
{
    let u = t.push(c);
    if i < t.len() {
        assert(u[i] == t[i]);
        lemma_scan_append(t, c, i + 1, acc * 10 + (t[i] - 48));
    } else {
        assert(u[i] == c);
        if 48 <= c <= 57 && acc * 10 + (c - 48) <= u64::MAX {
            assert(decimal_scan(u, i + 1, acc * 10 + (c - 48)) == Ok::<u64, IntErrorKind>((acc * 10 + (c - 48)) as u64));
        }
    }
}

/// Decimal parsing reads digits as a number: a single digit is its value
/// (a lone sign or any other byte is an invalid digit), and appending a
/// byte to text that parses to `v` gives `10 * v` plus the digit, an
/// overflow past `u64::MAX`, or an invalid digit for a non-digit.
pub proof fn lemma_parse_u64_digits(t: Seq<u8>, c: u8)
    ensures
        parsed_u64(seq![c]) == if 48 <= c <= 57 {
            Ok::<u64, IntErrorKind>((c - 48) as u64)
        } else {
            Err::<u64, IntErrorKind>(IntErrorKind::InvalidDigit)
        },
        parsed_u64(t) is Ok ==> parsed_u64(t.push(c)) == ({
            let v = parsed_u64(t)->Ok_0;
            if !(48 <= c <= 57) {
                Err::<u64, IntErrorKind>(IntErrorKind::InvalidDigit)
            } else if v * 10 + (c - 48) > u64::MAX {
                Err::<u64, IntErrorKind>(IntErrorKind::PosOverflow)
            } else {
                Ok::<u64, IntErrorKind>((v * 10 + (c - 48)) as u64)
            }
        }),
{
    let one = seq![c];
    if !(c == 43 || c == 45) {
        reveal_with_fuel(decimal_scan, 2);
    }
    if parsed_u64(t) is Ok {
        let u = t.push(c);
        assert(u[0] == t[0]);
        if t[0] == 43 {
            lemma_scan_append(t, c, 1, 0);
        } else {
            lemma_scan_append(t, c, 0, 0);
        }
    }
}

} // verus!
