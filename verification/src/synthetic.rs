use vstd::prelude::*;
use crate::accounts::{AccountState, AccountView};
use crate::address::Address;
use crate::bytes::prefix_equal;
use crate::ids::{instructions_sysvar_id, instructions_sysvar_key, sysvar_owner_id, sysvar_owner_key};
use crate::message::{construct_instructions_data, decompile_instructions, decompiled, instructions_sysvar_data, MessageModel};
use crate::mismatch::{AccountMismatch, MismatchView};

// Accounts that the runtime constructs when it loads a transaction and never
// stores in the bank. The capturing node finds no stored account for them,
// so a fixture holds an empty placeholder; the replay builds the real account,
// and its post-state is checked against what the runtime would build.

verus! {

/// The kinds of account that the runtime synthesizes at load time.
#[derive(Clone, Copy, Debug, PartialEq, Eq, Structural)]
pub enum SyntheticAccountKind {
    InstructionsSysvar,
}

/// The synthetic kind of the account at `pubkey`, if any.
pub fn classify(pubkey: &Address) -> (r: Option<SyntheticAccountKind>)
    ensures
        r is Some <==> pubkey@ == instructions_sysvar_key(),
        r matches Some(k) ==> k == SyntheticAccountKind::InstructionsSysvar,
{
    if *pubkey == instructions_sysvar_id() {
        return Some(SyntheticAccountKind::InstructionsSysvar);
    }
    None
}

/// The instructions sysvar account that the runtime builds for `message`:
/// the serialized instructions, owned by the sysvar owner, otherwise empty.
pub open spec fn instructions_account_view(message: MessageModel) -> AccountView {
    AccountView {
        lamports: 0,
        data: instructions_sysvar_data(decompiled(message)),
        owner: sysvar_owner_key(),
        executable: false,
        rent_epoch: 0,
    }
}

/// The first metadata field in which `actual` differs from `expected`:
/// lamports, owner, rent epoch, executable, in that order.
pub open spec fn metadata_mismatch(pubkey: Seq<u8>, actual: AccountView, expected: AccountView) -> Option<MismatchView> {
    if actual.lamports != expected.lamports {
        Some(MismatchView::Lamports { pubkey, actual: actual.lamports, expected: expected.lamports })
    } else if actual.owner != expected.owner {
        Some(MismatchView::Owner { pubkey, actual: actual.owner, expected: expected.owner })
    } else if actual.rent_epoch != expected.rent_epoch {
        Some(MismatchView::RentEpoch { pubkey, actual: actual.rent_epoch, expected: expected.rent_epoch })
    } else if actual.executable != expected.executable {
        Some(MismatchView::Executable { pubkey, actual: actual.executable, expected: expected.executable })
    } else {
        None
    }
}

/// How the instructions sysvar left by the replay differs from the one the
/// runtime builds: metadata first, then the data length, then the serialized
/// instructions before the trailing current-instruction index (two bytes that
/// the runtime rewrites as execution proceeds).
pub open spec fn instructions_sysvar_mismatch(pubkey: Seq<u8>, actual: AccountView, expected: AccountView) -> Option<MismatchView> {
    let n = expected.data.len();
    if metadata_mismatch(pubkey, actual, expected) is Some {
        metadata_mismatch(pubkey, actual, expected)
    } else if actual.data.len() != n {
        Some(MismatchView::DataLength { pubkey, actual: actual.data.len(), expected: n })
    } else if n < 2 {
        Some(MismatchView::MissingCurrentIndex { pubkey, len: n })
    } else if actual.data.subrange(0, n - 2) != expected.data.subrange(0, n - 2) {
        Some(MismatchView::InstructionPayload { pubkey, prefix_len: (n - 2) as nat })
    } else {
        None
    }
}

/// `r` reports exactly the mismatch `m`, or success where there is none.
pub open spec fn reports(r: Result<(), AccountMismatch>, m: Option<MismatchView>) -> bool {
    match m {
        None => r is Ok,
        Some(v) => r matches Err(e) && e@ == v,
    }
}

/// Checks what the replay left for a synthetic account.
pub fn validate_post_account(kind: SyntheticAccountKind, actual: &AccountState, message: &MessageModel) -> (r: Result<(), AccountMismatch>)
    requires
        message.wf(),
    ensures
        kind == SyntheticAccountKind::InstructionsSysvar ==> reports(
            r,
            instructions_sysvar_mismatch(instructions_sysvar_key(), actual@, instructions_account_view(*message)),
        ),
{
    match kind {
        SyntheticAccountKind::InstructionsSysvar => validate_instructions_sysvar(actual, message),
    }
}

/// Checks the instructions sysvar that the replay left against the one the
/// runtime builds for `message`.
pub fn validate_instructions_sysvar(actual: &AccountState, message: &MessageModel) -> (r: Result<(), AccountMismatch>)
    requires
        message.wf(),
    ensures
        reports(r, instructions_sysvar_mismatch(instructions_sysvar_key(), actual@, instructions_account_view(*message))),
        r is Ok <==> {
            let expected = instructions_sysvar_data(decompiled(*message));
            &&& actual.lamports == 0
            &&& actual.owner@ == sysvar_owner_key()
            &&& actual.rent_epoch == 0
            &&& !actual.executable
            &&& actual.data@.len() == expected.len()
            &&& expected.len() >= 2
            &&& forall|i: int| 0 <= i < expected.len() - 2 ==> actual.data@[i] == expected[i]
        },
{
    proof {
        lemma_instructions_sysvar_check(instructions_sysvar_key(), actual@, instructions_account_view(*message));
    }
    let expected = construct_instructions_account(message);
    let pubkey = instructions_sysvar_id();
    compare_shared_account_metadata(pubkey, actual, &expected)?;

    let expected_len = expected.data.len();
    let actual_len = actual.data.len();
    if actual_len != expected_len {
        return Err(AccountMismatch::DataLength { pubkey, actual: actual_len, expected: expected_len });
    }
    if expected_len < 2 {
        return Err(AccountMismatch::MissingCurrentIndex { pubkey, len: expected_len });
    }
    let prefix_len = expected_len - 2;
    if !prefix_equal(actual.data.as_slice(), expected.data.as_slice(), prefix_len) {
        return Err(AccountMismatch::InstructionPayload { pubkey, prefix_len });
    }
    Ok(())
}

/// The instructions sysvar account that the runtime builds for `message`.
pub fn construct_instructions_account(message: &MessageModel) -> (r: AccountState)
    requires
        message.wf(),
    ensures
        r@ == instructions_account_view(*message),
        r@.data.len() >= 2,
{
    let decompiled_instructions = decompile_instructions(message);
    let mut r = AccountState::empty();
    r.data = construct_instructions_data(&decompiled_instructions);
    r.owner = sysvar_owner_id();
    r
}

/// Compares lamports, owner, rent epoch and executable flag, and reports the
/// first that differs.
pub fn compare_shared_account_metadata(pubkey: Address, actual: &AccountState, expected: &AccountState) -> (r: Result<(), AccountMismatch>)
    ensures
        reports(r, metadata_mismatch(pubkey@, actual@, expected@)),
        r is Ok <==> actual.lamports == expected.lamports && actual.owner@ == expected.owner@
            && actual.rent_epoch == expected.rent_epoch && actual.executable == expected.executable,
        r matches Err(AccountMismatch::Lamports { actual: a, expected: e, .. })
            ==> a == actual.lamports && e == expected.lamports && a != e,
{
    if actual.lamports != expected.lamports {
        return Err(AccountMismatch::Lamports { pubkey, actual: actual.lamports, expected: expected.lamports });
    }
    if actual.owner != expected.owner {
        return Err(AccountMismatch::Owner { pubkey, actual: actual.owner, expected: expected.owner });
    }
    if actual.rent_epoch != expected.rent_epoch {
        return Err(AccountMismatch::RentEpoch { pubkey, actual: actual.rent_epoch, expected: expected.rent_epoch });
    }
    if actual.executable != expected.executable {
        return Err(AccountMismatch::Executable { pubkey, actual: actual.executable, expected: expected.executable });
    }
    Ok(())
}

/// The instructions sysvar that `construct_instructions_account` builds for a
/// message passes `validate_instructions_sysvar` for that message.
pub proof fn lemma_constructed_instructions_sysvar_validates(message: MessageModel, constructed: AccountView)
    requires
        constructed == instructions_account_view(message),
        constructed.data.len() >= 2,
    ensures
        instructions_sysvar_mismatch(instructions_sysvar_key(), constructed, instructions_account_view(message)) is None,
{
}

/// The check ignores the current-instruction index: an account that differs
/// from an accepted one only in the last two data bytes is accepted too.
pub proof fn lemma_current_index_ignored(pubkey: Seq<u8>, accepted: AccountView, other: AccountView, expected: AccountView)
    requires
        instructions_sysvar_mismatch(pubkey, accepted, expected) is None,
        other.lamports == accepted.lamports,
        other.owner == accepted.owner,
        other.executable == accepted.executable,
        other.rent_epoch == accepted.rent_epoch,
        other.data.len() == accepted.data.len(),
        other.data.subrange(0, other.data.len() - 2) == accepted.data.subrange(0, accepted.data.len() - 2),
    ensures
        instructions_sysvar_mismatch(pubkey, other, expected) is None,
{
}

/// The instructions sysvar check passes exactly when the account has the
/// runtime's metadata (no lamports, owned by the sysvar owner, rent epoch
/// 0, not executable) and data of the expected length, at least two bytes,
/// equal to the expected data at every offset before the last two.
pub proof fn lemma_instructions_sysvar_check(pubkey: Seq<u8>, actual: AccountView, expected: AccountView)
    ensures
        instructions_sysvar_mismatch(pubkey, actual, expected) is None <==> {
            &&& actual.lamports == expected.lamports
            &&& actual.owner == expected.owner
            &&& actual.rent_epoch == expected.rent_epoch
            &&& actual.executable == expected.executable
            &&& actual.data.len() == expected.data.len()
            &&& expected.data.len() >= 2
            &&& forall|i: int| 0 <= i < expected.data.len() - 2 ==> actual.data[i] == expected.data[i]
        },
{
    let n = expected.data.len();
    if actual.data.len() == n && n >= 2
        && forall|i: int| 0 <= i < n - 2 ==> actual.data[i] == expected.data[i] {
        assert(actual.data.subrange(0, n - 2) =~= expected.data.subrange(0, n - 2));
    }
    if actual.data.len() == n && n >= 2 && actual.data.subrange(0, n - 2) == expected.data.subrange(0, n - 2) {
        assert forall|i: int| 0 <= i < n - 2 implies actual.data[i] == expected.data[i] by {
            assert(actual.data.subrange(0, n - 2)[i] == expected.data.subrange(0, n - 2)[i]);
        }
    }
}

} // verus!
