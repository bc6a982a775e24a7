//! Properties of the recovery protocol that hold across its operations.
use vstd::prelude::*;

use crate::account::{stored_profile, Account};
use crate::error::{KryptonError, WalletError};
use crate::codec::profile_bytes;
use crate::instruction::recover_native_sol::{recover_native_sol_error, recovery_gate_error};
use crate::instruction::recover_token::recover_token_error;
use crate::instruction::recover_wallet::{recover_wallet_error, recovered_into};
use crate::instruction::transfer_native_sol::transfer_native_sol_error;
use crate::instruction::transfer_token::header_seed;
use crate::token::token_account_amount;
use crate::key::Key;
use crate::pda::{is_guard_of, is_profile_of};
use crate::recovery::{
    add_guardians_error, lemma_without_keys, retargeted, sign_error, signed_by, unsigned,
    with_added, without_keys,
};
use crate::state::{has_guardian, signed_count, Guardian, ProfileModel, MAX_GUARDIANS};

verus! {

/// A valid profile never holds more than `MAX_GUARDIANS` guardians after an
/// addition or a removal, and an addition past that number is refused with
/// `TooManyGuardians` (the profile then stays as it was, see `add_guardians`).
pub proof fn lemma_guardian_capacity(p: ProfileModel, keys: Seq<Key>)
    requires
        p.wf(),
    ensures
        add_guardians_error(p.guardians, keys) is None ==> with_added(p.guardians, keys).len()
            <= MAX_GUARDIANS,
        without_keys(p.guardians, keys).len() <= MAX_GUARDIANS,
        keys.len() > 0 && p.guardians.len() + keys.len() > MAX_GUARDIANS ==> add_guardians_error(
            p.guardians,
            keys,
        ) == Some(KryptonError::TooManyGuardians),
{
    lemma_without_keys(p.guardians, keys);
}

/// Once the accounts are the right ones and the recovery is directed at the new
/// profile, the recovery checks pass exactly when the count of guardian
/// signatures reaches `recovery_threshold`.
pub proof fn lemma_recovery_gate(
    program_id: Key,
    profile: Account,
    authority: Account,
    new_profile: Account,
    new_authority: Account,
)
    requires
        is_profile_of(profile.key, authority.key, program_id),
        is_profile_of(new_profile.key, new_authority.key, program_id),
        stored_profile(profile.data@) is Some,
        stored_profile(profile.data@).unwrap().recovery@ == new_profile.key@,
    ensures
        recovery_gate_error(program_id, profile, authority, new_profile, new_authority) is None
            <==> signed_count(stored_profile(profile.data@).unwrap().guardians)
            >= stored_profile(profile.data@).unwrap().recovery_threshold,
        recovery_gate_error(program_id, profile, authority, new_profile, new_authority) is Some
            ==> recovery_gate_error(program_id, profile, authority, new_profile, new_authority)
            == Some(WalletError::Custom(KryptonError::MissingGuardianSignatures)),
{
}

proof fn lemma_signed_count_signed_by(gs: Seq<Guardian>, k: Key)
    ensures
        !has_guardian(gs, k) ==> signed_by(gs, k) == gs,
        signed_count(signed_by(gs, k)) >= signed_count(gs),
    decreases gs.len(),
{
    if !has_guardian(gs, k) {
        assert(signed_by(gs, k) =~= gs);
    }
    if gs.len() > 0 {
        let t = gs.drop_last();
        assert(signed_by(gs, k).drop_last() =~= signed_by(t, k));
        lemma_signed_count_signed_by(t, k);
        if has_guardian(t, k) {
        } else {
            if !has_guardian(gs, k) {
                assert(!has_guardian(t, k));
            }
        }
    }
}

/// A signature by a key that is not a guardian is refused with
/// `GuardianNotFound`, and a guardian's signature never lowers the count of
/// signatures.
pub proof fn lemma_sign_by_non_guardian(p: ProfileModel, target: Key, k: Key)
    requires
        p.recovery@ == target@,
    ensures
        !has_guardian(p.guardians, k) ==> sign_error(p, target, k) == Some(
            KryptonError::GuardianNotFound,
        ),
        signed_count(signed_by(p.guardians, k)) >= signed_count(p.guardians),
{
    lemma_signed_count_signed_by(p.guardians, k);
}

/// Directing the recovery at a new target withdraws every guardian's signature;
/// directing it at the current target again changes nothing.
pub proof fn lemma_retarget(p: ProfileModel, target: Key)
    ensures
        p.recovery@ != target@ ==> forall|i: int|
            0 <= i < retargeted(p, target).guardians.len() ==> !(
            #[trigger] retargeted(p, target).guardians[i]).has_signed,
        p.recovery@ != target@ ==> retargeted(p, target).guardians.len() == p.guardians.len(),
        p.recovery@ == target@ ==> retargeted(p, target) == p,
        retargeted(retargeted(p, target), target) == retargeted(p, target),
{
    let _ = unsigned(p.guardians);
}

} // verus!

verus! {

/// The recovery of the native balance, once its accounts are the right ones,
/// succeeds exactly when the count of guardian signatures reaches the
/// threshold, and fails with `MissingGuardianSignatures` otherwise.
pub proof fn lemma_recover_native_sol_threshold(
    program_id: Key,
    profile: Account,
    authority: Account,
    new_profile: Account,
    new_authority: Account,
)
    requires
        new_authority.is_signer,
        profile.is_writable,
        new_profile.is_writable,
        profile.key@ != new_profile.key@,
        is_profile_of(profile.key, authority.key, program_id),
        is_profile_of(new_profile.key, new_authority.key, program_id),
        stored_profile(profile.data@) is Some,
        stored_profile(profile.data@).unwrap().recovery@ == new_profile.key@,
        profile.lamports + new_profile.lamports <= u64::MAX,
    ensures
        recover_native_sol_error(program_id, profile, authority, new_profile, new_authority)
            is None <==> stored_profile(profile.data@).unwrap().recovery_ready(),
        !stored_profile(profile.data@).unwrap().recovery_ready() ==> recover_native_sol_error(
            program_id,
            profile,
            authority,
            new_profile,
            new_authority,
        ) == Some(WalletError::Custom(KryptonError::MissingGuardianSignatures)),
{
}

/// The recovery of the profile's state, once its accounts are the right ones
/// and the new profile has room for the record, succeeds exactly when the
/// count of guardian signatures reaches the threshold, and fails with
/// `MissingGuardianSignatures` otherwise.
pub proof fn lemma_recover_wallet_threshold(
    program_id: Key,
    profile: Account,
    authority: Account,
    new_profile: Account,
    new_authority: Account,
)
    requires
        new_authority.is_signer,
        profile.is_writable,
        new_profile.is_writable,
        profile.key@ != new_profile.key@,
        is_profile_of(profile.key, authority.key, program_id),
        is_profile_of(new_profile.key, new_authority.key, program_id),
        stored_profile(profile.data@) is Some,
        stored_profile(profile.data@).unwrap().authority@ == authority.key@,
        stored_profile(profile.data@).unwrap().recovery@ == new_profile.key@,
        stored_profile(new_profile.data@) is Some,
        stored_profile(new_profile.data@).unwrap().authority@ == new_authority.key@,
        stored_profile(new_profile.data@).unwrap().recovered.len() + 1 <= u32::MAX,
        profile_bytes(
            recovered_into(
                stored_profile(new_profile.data@).unwrap(),
                profile.key,
                stored_profile(profile.data@).unwrap(),
                Seq::empty(),
            ),
        ).len() <= new_profile.data@.len(),
    ensures
        recover_wallet_error(
            program_id,
            profile,
            authority,
            new_profile,
            new_authority,
            Seq::empty(),
        ) is None <==> stored_profile(profile.data@).unwrap().recovery_ready(),
        !stored_profile(profile.data@).unwrap().recovery_ready() ==> recover_wallet_error(
            program_id,
            profile,
            authority,
            new_profile,
            new_authority,
            Seq::empty(),
        ) == Some(WalletError::Custom(KryptonError::MissingGuardianSignatures)),
{
}

/// The recovery of the tokens, once its accounts are the right ones and the
/// old token account is an initialized token account, succeeds exactly when
/// the count of guardian signatures reaches the threshold, and fails with
/// `MissingGuardianSignatures` otherwise.
pub proof fn lemma_recover_token_threshold(
    program_id: Key,
    profile: Account,
    authority: Account,
    new_profile: Account,
    new_authority: Account,
    old_token_account: Account,
    new_token_account: Account,
)
    requires
        new_authority.is_signer,
        old_token_account.is_writable,
        new_token_account.is_writable,
        is_profile_of(profile.key, authority.key, program_id),
        is_profile_of(new_profile.key, new_authority.key, program_id),
        stored_profile(profile.data@) is Some,
        stored_profile(profile.data@).unwrap().recovery@ == new_profile.key@,
        token_account_amount(old_token_account.data@) is Some,
    ensures
        recover_token_error(
            program_id,
            profile,
            authority,
            new_profile,
            new_authority,
            old_token_account,
            new_token_account,
        ) is None <==> stored_profile(profile.data@).unwrap().recovery_ready(),
        !stored_profile(profile.data@).unwrap().recovery_ready() ==> recover_token_error(
            program_id,
            profile,
            authority,
            new_profile,
            new_authority,
            old_token_account,
            new_token_account,
        ) == Some(WalletError::Custom(KryptonError::MissingGuardianSignatures)),
{
}

/// A native transfer of more than the profile holds, by its authority, is
/// refused with `InsufficientFundsForTransaction` (and then moves nothing, by
/// `process_transfer_native_sol`'s contract).
pub proof fn lemma_transfer_over_balance(
    program_id: Key,
    profile: Account,
    authority: Account,
    dest: Account,
    guard: Option<Account>,
    amount: u64,
)
    requires
        authority.is_signer,
        profile.is_writable,
        profile.key@ != dest.key@,
        profile.data@.len() >= 64,
        profile.data@.subrange(32, 64) == authority.key@,
        is_profile_of(profile.key, header_seed(profile.data@), program_id),
        guard matches Some(g) ==> is_guard_of(g.key, profile.key, program_id),
        amount > profile.lamports,
    ensures
        transfer_native_sol_error(program_id, profile, authority, dest, guard, amount) == Some(
            WalletError::Custom(KryptonError::InsufficientFundsForTransaction),
        ),
{
}

} // verus!
