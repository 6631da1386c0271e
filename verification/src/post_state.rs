use vstd::prelude::*;
use crate::accounts::{AccountState, AccountStore, AccountView};
use crate::address::Address;
use crate::bank::{
    all_inline, fixture_account_view, fixture_entries, insert_all, insert_fixture_accounts, lemma_insert_all_keys,
    lemma_insert_all_lookup,
};
use crate::bytes::bytes_equal;
use crate::fixture::{FixtureAccount, TransactionFixture, FIXTURE_ACCOUNT_FLAG_EXECUTABLE};
use crate::ids::instructions_sysvar_key;
use crate::message::MessageModel;
use crate::mismatch::{mismatch_views, AccountMismatch, MismatchView};
use crate::synthetic::{
    classify, instructions_account_view, instructions_sysvar_mismatch, reports, validate_post_account,
};

verus! {

/// The rent epoch that marks an account as rent exempt (`Epoch::MAX`).
pub const RENT_EXEMPT_RENT_EPOCH: u64 = 0xffff_ffff_ffff_ffff;

/// A captured rent epoch matches the replayed one: equal, or the replay
/// reports 0 for an executable account captured as rent exempt.
pub open spec fn rent_epochs_match(fa: FixtureAccount, actual: u64) -> bool {
    actual == fa.rent_epoch
        || (actual == 0 && fa.rent_epoch == RENT_EXEMPT_RENT_EPOCH && fa.flags & FIXTURE_ACCOUNT_FLAG_EXECUTABLE != 0)
}

/// Whether the replayed rent epoch `actual` matches the captured account.
pub fn rent_epochs_equivalent(fa: &FixtureAccount, actual: u64) -> (r: bool)
    ensures
        r == rent_epochs_match(*fa, actual),
        r <==> actual == fa.rent_epoch
            || (actual == 0 && fa.rent_epoch == u64::MAX && fa.flags & FIXTURE_ACCOUNT_FLAG_EXECUTABLE != 0),
{
    actual == fa.rent_epoch || (actual == 0 && fa.rent_epoch == RENT_EXEMPT_RENT_EPOCH && fa.is_executable())
}

/// The first way in which the replayed `actual` differs from the captured
/// `fa`: a hash reference in place of data, then lamports, owner, rent
/// epoch, executable flag and data, in that order.
pub open spec fn shared_mismatch(fa: FixtureAccount, actual: AccountView) -> Option<MismatchView> {
    let pubkey = fa.pubkey@;
    let executable = fa.flags & FIXTURE_ACCOUNT_FLAG_EXECUTABLE != 0;
    if fa.data is Hash {
        Some(MismatchView::HashBlob { pubkey })
    } else if actual.lamports != fa.lamports {
        Some(MismatchView::Lamports { pubkey, actual: actual.lamports, expected: fa.lamports })
    } else if actual.owner != fa.owner@ {
        Some(MismatchView::Owner { pubkey, actual: actual.owner, expected: fa.owner@ })
    } else if !rent_epochs_match(fa, actual.rent_epoch) {
        Some(MismatchView::RentEpoch { pubkey, actual: actual.rent_epoch, expected: fa.rent_epoch })
    } else if actual.executable != executable {
        Some(MismatchView::Executable { pubkey, actual: actual.executable, expected: executable })
    } else if actual.data != fa.data->Inline_0@ {
        Some(MismatchView::Data { pubkey, actual: actual.data, expected: fa.data->Inline_0@ })
    } else {
        None
    }
}

/// Compares a replayed account with the captured post-execution account.
pub fn post_account_shared_matches(fa: &FixtureAccount, actual: &AccountState) -> (r: Result<(), AccountMismatch>)
    ensures
        reports(r, shared_mismatch(*fa, actual@)),
        r is Ok <==> {
            &&& fa.data is Inline
            &&& actual.lamports == fa.lamports
            &&& actual.owner@ == fa.owner@
            &&& (actual.rent_epoch == fa.rent_epoch || (actual.rent_epoch == 0 && fa.rent_epoch == u64::MAX
                && fa.flags & FIXTURE_ACCOUNT_FLAG_EXECUTABLE != 0))
            &&& actual.executable == (fa.flags & FIXTURE_ACCOUNT_FLAG_EXECUTABLE != 0)
            &&& actual.data@ == fa.data->Inline_0@
        },
        r matches Err(AccountMismatch::Data { actual: a, expected: e, .. })
            ==> a@ == actual.data@ && e@ == fa.data->Inline_0@ && a@ != e@,
{
    let expected_data = match fa.data.inline_bytes() {
        Some(d) => d,
        None => return Err(AccountMismatch::HashBlob { pubkey: fa.pubkey }),
    };
    if actual.lamports != fa.lamports {
        return Err(AccountMismatch::Lamports { pubkey: fa.pubkey, actual: actual.lamports, expected: fa.lamports });
    }
    if actual.owner != fa.owner {
        return Err(AccountMismatch::Owner { pubkey: fa.pubkey, actual: actual.owner, expected: fa.owner });
    }
    if !rent_epochs_equivalent(fa, actual.rent_epoch) {
        return Err(AccountMismatch::RentEpoch { pubkey: fa.pubkey, actual: actual.rent_epoch, expected: fa.rent_epoch });
    }
    if actual.executable != fa.is_executable() {
        return Err(AccountMismatch::Executable {
            pubkey: fa.pubkey,
            actual: actual.executable,
            expected: fa.is_executable(),
        });
    }
    if !bytes_equal(actual.data.as_slice(), expected_data) {
        return Err(AccountMismatch::Data {
            pubkey: fa.pubkey,
            actual: crate::bytes::copy_bytes(actual.data.as_slice()),
            expected: crate::bytes::copy_bytes(expected_data),
        });
    }
    Ok(())
}

/// The bank entries for a list of `(address, account)` pairs.
pub open spec fn account_entries(accounts: Seq<(Address, AccountState)>) -> Seq<(Seq<u8>, AccountView)> {
    Seq::new(accounts.len(), |i: int| (accounts[i].0@, accounts[i].1@))
}

/// Inserts `accounts` into `store` in order.
pub fn insert_accounts(store: &mut AccountStore, accounts: &Vec<(Address, AccountState)>)
    requires
        old(store).wf(),
    ensures
        final(store).wf(),
        final(store)@ == insert_all(old(store)@, account_entries(accounts@)),
{
    let ghost start = store@;
    let mut i: usize = 0;
    while i < accounts.len()
        invariant
            i <= accounts@.len(),
            store.wf(),
            store@ == insert_all(start, account_entries(accounts@).subrange(0, i as int)),
        decreases accounts@.len() - i,
    {
        let (key, account) = &accounts[i];
        store.insert(*key, account.duplicate());
        i = i + 1;
        assert(account_entries(accounts@).subrange(0, i as int).drop_last()
            =~= account_entries(accounts@).subrange(0, i - 1));
    }
    assert(account_entries(accounts@).subrange(0, accounts@.len() as int) =~= account_entries(accounts@));
}

/// The state that the bank commits for a failed transaction: every account
/// as it was before execution, except the rollback accounts (the fee payer,
/// and the nonce account where there is one), which keep their charged state.
pub fn committed_post_accounts_for_failed_tx(
    pre_accounts: &Vec<FixtureAccount>,
    rollback: &Vec<(Address, AccountState)>,
) -> (r: AccountStore)
    requires
        all_inline(pre_accounts@),
    ensures
        r.wf(),
        r@ == insert_all(insert_all(Map::empty(), fixture_entries(pre_accounts@)), account_entries(rollback@)),
        forall|i: int| 0 <= i < rollback@.len()
            && (forall|j: int| i < j < rollback@.len() ==> rollback@[j].0@ != rollback@[i].0@)
            ==> r@.contains_key((#[trigger] rollback@[i]).0@) && r@[rollback@[i].0@] == rollback@[i].1@,
        forall|i: int| 0 <= i < pre_accounts@.len()
            && (forall|j: int| 0 <= j < rollback@.len() ==> rollback@[j].0@ != pre_accounts@[i].pubkey@)
            && (forall|j: int| i < j < pre_accounts@.len() ==> pre_accounts@[j].pubkey@ != pre_accounts@[i].pubkey@)
            ==> {
                let a = #[trigger] pre_accounts@[i];
                &&& r@.contains_key(a.pubkey@)
                &&& r@[a.pubkey@].lamports == a.lamports
                &&& r@[a.pubkey@].owner == a.owner@
                &&& r@[a.pubkey@].rent_epoch == a.rent_epoch
                &&& r@[a.pubkey@].executable == (a.flags & FIXTURE_ACCOUNT_FLAG_EXECUTABLE != 0)
                &&& r@[a.pubkey@].data == a.data->Inline_0@
            },
        forall|k: Seq<u8>| #[trigger] r@.contains_key(k) ==> (exists|i: int| 0 <= i < pre_accounts@.len() && pre_accounts@[i].pubkey@ == k)
            || (exists|i: int| 0 <= i < rollback@.len() && rollback@[i].0@ == k),
{
    let mut map = AccountStore::new();
    insert_fixture_accounts(&mut map, pre_accounts);
    insert_accounts(&mut map, rollback);
    proof {
        let pre = fixture_entries(pre_accounts@);
        let rb = account_entries(rollback@);
        let mid = insert_all(Map::empty(), pre);
        assert forall|i: int| 0 <= i < rollback@.len()
            && (forall|j: int| i < j < rollback@.len() ==> rollback@[j].0@ != rollback@[i].0@)
            implies map@.contains_key((#[trigger] rollback@[i]).0@) && map@[rollback@[i].0@] == rollback@[i].1@ by {
            lemma_insert_all_lookup(mid, rb, rollback@[i].0@);
            assert(rb[i].0 == rollback@[i].0@);
            assert forall|j: int| i < j < rb.len() implies rb[j].0 != rollback@[i].0@ by {
                assert(rb[j].0 == rollback@[j].0@);
            }
        }
        assert forall|i: int| 0 <= i < pre_accounts@.len()
            && (forall|j: int| 0 <= j < rollback@.len() ==> rollback@[j].0@ != pre_accounts@[i].pubkey@)
            && (forall|j: int| i < j < pre_accounts@.len() ==> pre_accounts@[j].pubkey@ != pre_accounts@[i].pubkey@)
            implies {
                let a = #[trigger] pre_accounts@[i];
                &&& map@.contains_key(a.pubkey@)
                &&& map@[a.pubkey@].lamports == a.lamports
                &&& map@[a.pubkey@].owner == a.owner@
                &&& map@[a.pubkey@].rent_epoch == a.rent_epoch
                &&& map@[a.pubkey@].executable == (a.flags & FIXTURE_ACCOUNT_FLAG_EXECUTABLE != 0)
                &&& map@[a.pubkey@].data == a.data->Inline_0@
            } by {
            let key = pre_accounts@[i].pubkey@;
            lemma_insert_all_lookup(Map::empty(), pre, key);
            assert(pre[i].0 == key);
            assert forall|j: int| i < j < pre.len() implies pre[j].0 != key by {
                assert(pre[j].0 == pre_accounts@[j].pubkey@);
            }
            lemma_insert_all_lookup(mid, rb, key);
            assert forall|j: int| 0 <= j < rb.len() implies rb[j].0 != key by {
                assert(rb[j].0 == rollback@[j].0@);
            }
        }
        assert forall|k: Seq<u8>| #[trigger] map@.contains_key(k) implies (exists|i: int| 0 <= i < pre_accounts@.len() && pre_accounts@[i].pubkey@ == k)
            || (exists|i: int| 0 <= i < rollback@.len() && rollback@[i].0@ == k) by {
            lemma_insert_all_keys(Map::empty(), pre, k);
            lemma_insert_all_keys(mid, rb, k);
            if exists|j: int| 0 <= j < pre.len() && pre[j].0 == k {
                let j = choose|j: int| 0 <= j < pre.len() && pre[j].0 == k;
                assert(pre_accounts@[j].pubkey@ == k);
            }
            if exists|j: int| 0 <= j < rb.len() && rb[j].0 == k {
                let j = choose|j: int| 0 <= j < rb.len() && rb[j].0 == k;
                assert(rollback@[j].0@ == k);
            }
        }
    }
    map
}

/// How the replay state differs for one captured post-execution account.
/// A synthetic account is checked against what the runtime builds, in the
/// loaded accounts; any other account against the committed state, which is
/// the loaded accounts for a successful transaction and `committed` for a
/// failed one.
pub open spec fn account_outcome(
    fa: FixtureAccount,
    loaded: Map<Seq<u8>, AccountView>,
    committed: Option<Map<Seq<u8>, AccountView>>,
    message: MessageModel,
) -> Option<MismatchView> {
    let key = fa.pubkey@;
    if key == instructions_sysvar_key() {
        if !loaded.contains_key(key) {
            Some(MismatchView::NotLoaded { pubkey: key })
        } else {
            instructions_sysvar_mismatch(instructions_sysvar_key(), loaded[key], instructions_account_view(message))
        }
    } else {
        let state = match committed {
            Some(c) => c,
            None => loaded,
        };
        if !state.contains_key(key) {
            Some(MismatchView::NotCommitted { pubkey: key })
        } else {
            shared_mismatch(fa, state[key])
        }
    }
}

/// The view of an optional store.
pub open spec fn store_view(s: Option<AccountStore>) -> Option<Map<Seq<u8>, AccountView>> {
    match s {
        Some(c) => Some(c@),
        None => None,
    }
}

/// The mismatches of all captured post-execution accounts, in their order.
pub open spec fn expected_mismatches(
    post: Seq<FixtureAccount>,
    loaded: Map<Seq<u8>, AccountView>,
    committed: Option<Map<Seq<u8>, AccountView>>,
    message: MessageModel,
) -> Seq<MismatchView>
    decreases post.len(),
{
    if post.len() == 0 {
        seq![]
    } else {
        let before = expected_mismatches(post.drop_last(), loaded, committed, message);
        match account_outcome(post.last(), loaded, committed, message) {
            Some(m) => before.push(m),
            None => before,
        }
    }
}

/// How many captured post-execution accounts are synthetic.
pub open spec fn synthetic_count(post: Seq<FixtureAccount>) -> nat
    decreases post.len(),
{
    if post.len() == 0 {
        0
    } else {
        synthetic_count(post.drop_last()) + if post.last().pubkey@ == instructions_sysvar_key() { 1nat } else { 0nat }
    }
}

proof fn lemma_synthetic_count_bound(post: Seq<FixtureAccount>)
    ensures
        synthetic_count(post) <= post.len(),
    decreases post.len(),
{
    if post.len() > 0 {
        lemma_synthetic_count_bound(post.drop_last());
    }
}

/// Compares every captured post-execution account with the state the replay
/// left, and counts the synthetic accounts among them. `loaded` holds the
/// accounts the replay loaded (a later entry for an address replaces an
/// earlier one), `failed` whether the transaction failed, `rollback` the
/// accounts a failed transaction still commits.
pub fn post_account_mismatches(
    fix: &TransactionFixture,
    loaded: &Vec<(Address, AccountState)>,
    failed: bool,
    rollback: &Vec<(Address, AccountState)>,
    message: &MessageModel,
) -> (r: (Vec<AccountMismatch>, usize))
    requires
        message.wf(),
        fix.post_accounts@.len() > 0 && failed ==> all_inline(fix.pre_accounts@),
    ensures
        fix.post_accounts@.len() == 0 ==> r.0@.len() == 0 && r.1 == 0,
        fix.post_accounts@.len() > 0 ==> {
            let loaded_map = insert_all(Map::empty(), account_entries(loaded@));
            let committed = if failed {
                Some(insert_all(insert_all(Map::empty(), fixture_entries(fix.pre_accounts@)), account_entries(rollback@)))
            } else {
                None
            };
            &&& mismatch_views(r.0@) == expected_mismatches(fix.post_accounts@, loaded_map, committed, *message)
            &&& r.1 == synthetic_count(fix.post_accounts@)
        },
{
    if fix.post_accounts.len() == 0 {
        return (Vec::new(), 0);
    }
    let mut loaded_map = AccountStore::new();
    insert_accounts(&mut loaded_map, loaded);
    let failed_committed = if failed {
        Some(committed_post_accounts_for_failed_tx(&fix.pre_accounts, rollback))
    } else {
        None
    };
    let ghost committed_view = store_view(failed_committed);
    let post = &fix.post_accounts;
    let mut mismatches: Vec<AccountMismatch> = Vec::new();
    let mut synthetic_checked: usize = 0;
    let mut i: usize = 0;
    while i < post.len()
        invariant
            i <= post@.len(),
            message.wf(),
            loaded_map.wf(),
            failed_committed matches Some(c) ==> c.wf(),
            committed_view == store_view(failed_committed),
            mismatch_views(mismatches@) == expected_mismatches(post@.subrange(0, i as int), loaded_map@, committed_view, *message),
            synthetic_checked == synthetic_count(post@.subrange(0, i as int)),
        decreases post@.len() - i,
    {
        let fa = &post[i];
        let ghost prefix = post@.subrange(0, i as int);
        let ghost next = post@.subrange(0, i + 1);
        assert(next.drop_last() =~= prefix);
        assert(next.last() == *fa);
        proof {
            lemma_synthetic_count_bound(prefix);
        }
        let ghost before = mismatches@;
        match classify(&fa.pubkey) {
            Some(kind) => {
                synthetic_checked = synthetic_checked + 1;
                match loaded_map.get(&fa.pubkey) {
                    None => {
                        mismatches.push(AccountMismatch::NotLoaded { pubkey: fa.pubkey });
                    },
                    Some(act) => {
                        if let Err(e) = validate_post_account(kind, act, message) {
                            mismatches.push(e);
                        }
                    },
                }
            },
            None => {
                let act = match &failed_committed {
                    Some(committed) => committed.get(&fa.pubkey),
                    None => loaded_map.get(&fa.pubkey),
                };
                match act {
                    None => {
                        mismatches.push(AccountMismatch::NotCommitted { pubkey: fa.pubkey });
                    },
                    Some(act) => {
                        if let Err(e) = post_account_shared_matches(fa, act) {
                            mismatches.push(e);
                        }
                    },
                }
            },
        }
        assert(mismatch_views(mismatches@) =~= expected_mismatches(next, loaded_map@, committed_view, *message));
        i = i + 1;
    }
    assert(post@.subrange(0, post@.len() as int) =~= post@);
    (mismatches, synthetic_checked)
}

/// The return data that an executed transaction reported.
#[derive(Debug)]
pub struct ReturnData {
    pub program_id: Address,
    pub data: Vec<u8>,
}

/// Whether the replay's return data is what the fixture captured: both
/// absent (empty data from the default program id) or the same program id
/// and the same bytes.
pub fn return_data_matches(fix: &TransactionFixture, actual: &Option<ReturnData>) -> (r: bool)
    ensures
        r == match actual {
            None => fix.result.return_data@.len() == 0 && fix.result.return_data_program@ == Seq::new(32, |i: int| 0u8),
            Some(rd) => rd.program_id@ == fix.result.return_data_program@ && rd.data@ == fix.result.return_data@,
        },
{
    let exp_prog = fix.result.return_data_program;
    let exp_data = fix.result.return_data.as_slice();
    match actual {
        None => exp_data.len() == 0 && exp_prog == Address::zeroed(),
        Some(rd) => rd.program_id == exp_prog && bytes_equal(rd.data.as_slice(), exp_data),
    }
}

/// A captured account with inline data, placed in the bank as it is, matches
/// itself: the comparison reports nothing.
pub proof fn lemma_fixture_account_matches_itself(fa: FixtureAccount)
    requires
        fa.data is Inline,
    ensures
        shared_mismatch(fa, fixture_account_view(fa)) is None,
{
}

/// A replayed rent epoch equal to the captured one always matches.
pub proof fn lemma_rent_epoch_match_reflexive(fa: FixtureAccount)
    ensures
        rent_epochs_match(fa, fa.rent_epoch),
{
}

/// A replay that leaves every captured post-execution account as it was
/// captured (with inline data) in the committed state, and the instructions
/// sysvar as the runtime builds it among the loaded accounts, reports no
/// mismatch.
pub proof fn lemma_faithful_replay_matches(
    post: Seq<FixtureAccount>,
    loaded: Map<Seq<u8>, AccountView>,
    committed: Option<Map<Seq<u8>, AccountView>>,
    message: MessageModel,
)
    requires
        forall|i: int| 0 <= i < post.len() && (#[trigger] post[i]).pubkey@ != instructions_sysvar_key() ==> {
            let state = match committed { Some(c) => c, None => loaded };
            &&& post[i].data is Inline
            &&& state.contains_key(post[i].pubkey@)
            &&& state[post[i].pubkey@] == fixture_account_view(post[i])
        },
        (exists|i: int| 0 <= i < post.len() && (#[trigger] post[i]).pubkey@ == instructions_sysvar_key()) ==> {
            &&& loaded.contains_key(instructions_sysvar_key())
            &&& instructions_sysvar_mismatch(
                instructions_sysvar_key(),
                loaded[instructions_sysvar_key()],
                instructions_account_view(message),
            ) is None
        },
    ensures
        expected_mismatches(post, loaded, committed, message).len() == 0,
    decreases post.len(),
{
    if post.len() > 0 {
        let init = post.drop_last();
        let last = post[post.len() - 1];
        assert forall|i: int| 0 <= i < init.len() && (#[trigger] init[i]).pubkey@ != instructions_sysvar_key() implies {
            let state = match committed { Some(c) => c, None => loaded };
            &&& init[i].data is Inline
            &&& state.contains_key(init[i].pubkey@)
            &&& state[init[i].pubkey@] == fixture_account_view(init[i])
        } by {
            assert(init[i] == post[i]);
        }
        if exists|i: int| 0 <= i < init.len() && (#[trigger] init[i]).pubkey@ == instructions_sysvar_key() {
            let i = choose|i: int| 0 <= i < init.len() && (#[trigger] init[i]).pubkey@ == instructions_sysvar_key();
            assert(post[i] == init[i]);
        }
        lemma_faithful_replay_matches(init, loaded, committed, message);
        if last.pubkey@ == instructions_sysvar_key() {
            assert(post[post.len() - 1].pubkey@ == instructions_sysvar_key());
        } else {
            assert(post[post.len() - 1] == last);
            lemma_fixture_account_matches_itself(last);
        }
    }
}

/// The comparison of a replayed account with a captured one finds nothing
/// exactly when the captured data is inline and every field agrees: the
/// same lamports, owner and executable flag, an equal rent epoch (or 0 for
/// an executable account captured as rent exempt), and the whole data,
/// byte for byte at every offset.
pub proof fn lemma_shared_match_is_full_equality(fa: FixtureAccount, actual: AccountView)
    ensures
        shared_mismatch(fa, actual) is None <==> {
            &&& fa.data is Inline
            &&& actual.lamports == fa.lamports
            &&& actual.owner == fa.owner@
            &&& (actual.rent_epoch == fa.rent_epoch || (actual.rent_epoch == 0 && fa.rent_epoch == u64::MAX
                && fa.flags & FIXTURE_ACCOUNT_FLAG_EXECUTABLE != 0))
            &&& actual.executable == (fa.flags & FIXTURE_ACCOUNT_FLAG_EXECUTABLE != 0)
            &&& actual.data.len() == fa.data->Inline_0@.len()
            &&& forall|i: int| 0 <= i < actual.data.len() ==> actual.data[i] == fa.data->Inline_0@[i]
        },
{
    if fa.data is Inline && actual.data.len() == fa.data->Inline_0@.len()
        && forall|i: int| 0 <= i < actual.data.len() ==> actual.data[i] == fa.data->Inline_0@[i] {
        assert(actual.data =~= fa.data->Inline_0@);
    }
}

/// Where the post-state comparison reports nothing, the replay agrees with
/// every captured post-execution account: each one other than the
/// instructions sysvar is in the committed state (the loaded accounts for a
/// successful transaction) with the captured lamports, owner, executable
/// flag and, in full, the captured data; the instructions sysvar, where
/// captured, is among the loaded accounts.
pub proof fn lemma_no_mismatch_means_replay_agrees(
    post: Seq<FixtureAccount>,
    loaded: Map<Seq<u8>, AccountView>,
    committed: Option<Map<Seq<u8>, AccountView>>,
    message: MessageModel,
)
    requires
        expected_mismatches(post, loaded, committed, message).len() == 0,
    ensures
        forall|i: int| 0 <= i < post.len() && (#[trigger] post[i]).pubkey@ != instructions_sysvar_key() ==> {
            let state = match committed { Some(c) => c, None => loaded };
            let key = post[i].pubkey@;
            &&& post[i].data is Inline
            &&& state.contains_key(key)
            &&& state[key].lamports == post[i].lamports
            &&& state[key].owner == post[i].owner@
            &&& state[key].executable == (post[i].flags & FIXTURE_ACCOUNT_FLAG_EXECUTABLE != 0)
            &&& state[key].data == post[i].data->Inline_0@
        },
        forall|i: int| 0 <= i < post.len() && (#[trigger] post[i]).pubkey@ == instructions_sysvar_key()
            ==> loaded.contains_key(instructions_sysvar_key()),
    decreases post.len(),
{
    if post.len() > 0 {
        let init = post.drop_last();
        let last = post.last();
        let before = expected_mismatches(init, loaded, committed, message);
        assert(account_outcome(last, loaded, committed, message) is None && before.len() == 0);
        lemma_no_mismatch_means_replay_agrees(init, loaded, committed, message);
        let state = match committed { Some(c) => c, None => loaded };
        if last.pubkey@ != instructions_sysvar_key() {
            lemma_shared_match_is_full_equality(last, state[last.pubkey@]);
            assert(state[last.pubkey@].data =~= last.data->Inline_0@);
        }
        assert forall|i: int| 0 <= i < post.len() && (#[trigger] post[i]).pubkey@ != instructions_sysvar_key() implies {
            let key = post[i].pubkey@;
            &&& post[i].data is Inline
            &&& state.contains_key(key)
            &&& state[key].lamports == post[i].lamports
            &&& state[key].owner == post[i].owner@
            &&& state[key].executable == (post[i].flags & FIXTURE_ACCOUNT_FLAG_EXECUTABLE != 0)
            &&& state[key].data == post[i].data->Inline_0@
        } by {
            if i < post.len() - 1 {
                assert(init[i] == post[i]);
            }
        }
        assert forall|i: int| 0 <= i < post.len() && (#[trigger] post[i]).pubkey@ == instructions_sysvar_key()
            implies loaded.contains_key(instructions_sysvar_key()) by {
            if i < post.len() - 1 {
                assert(init[i] == post[i]);
            }
        }
    }
}

} // verus!
