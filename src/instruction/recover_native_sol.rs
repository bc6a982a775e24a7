use vstd::prelude::*;

use crate::account::{load_profile, same_account, stored_profile, Account};
use crate::error::{KryptonError, WalletError};
use crate::key::Key;
use crate::pda::{check_profile_address, is_profile_of};
use crate::recovery::verify_recovery_state;

verus! {

/// The checks every recovery step goes through, in order, once the new
/// authority's signature and the writable flags have been checked.
pub open spec fn recovery_gate_error(
    program_id: Key,
    profile: Account,
    authority: Account,
    new_profile: Account,
    new_authority: Account,
) -> Option<WalletError> {
    if !is_profile_of(profile.key, authority.key, program_id) {
        Some(WalletError::InvalidSeeds)
    } else if !is_profile_of(new_profile.key, new_authority.key, program_id) {
        Some(WalletError::InvalidSeeds)
    } else if stored_profile(profile.data@) is None {
        Some(WalletError::InvalidAccountData)
    } else if stored_profile(profile.data@).unwrap().recovery@ != new_profile.key@ {
        Some(WalletError::Custom(KryptonError::NotAuthorizedToRecover))
    } else if !stored_profile(profile.data@).unwrap().recovery_ready() {
        Some(WalletError::Custom(KryptonError::MissingGuardianSignatures))
    } else {
        None
    }
}

/// Why moving the balance of `profile` to `new_profile` is refused, if it is.
pub open spec fn recover_native_sol_error(
    program_id: Key,
    profile: Account,
    authority: Account,
    new_profile: Account,
    new_authority: Account,
) -> Option<WalletError> {
    if !new_authority.is_signer {
        Some(WalletError::Custom(KryptonError::NotSigner))
    } else if !profile.is_writable || !new_profile.is_writable {
        Some(WalletError::Custom(KryptonError::NotWriteable))
    } else if profile.key@ == new_profile.key@ {
        Some(WalletError::InvalidArgument)
    } else if recovery_gate_error(program_id, profile, authority, new_profile, new_authority) is Some {
        recovery_gate_error(program_id, profile, authority, new_profile, new_authority)
    } else if profile.lamports + new_profile.lamports > u64::MAX {
        Some(WalletError::Custom(KryptonError::Overflow))
    } else {
        None
    }
}

/// Runs the checks of [`recovery_gate_error`].
pub fn check_recovery_gate(
    program_id: &Key,
    profile_info: &Account,
    authority_info: &Account,
    new_profile_info: &Account,
    new_authority_info: &Account,
) -> (r: Result<u8, WalletError>)
    ensures
        match recovery_gate_error(
            *program_id,
            *profile_info,
            *authority_info,
            *new_profile_info,
            *new_authority_info,
        ) {
            Some(e) => r == Err::<u8, WalletError>(e),
            None => r matches Ok(bump) && crate::pda::profile_address(
                authority_info.key,
                *program_id,
            ) == Some((profile_info.key@, bump)),
        },
{
    let bump = match check_profile_address(&profile_info.key, &authority_info.key, program_id) {
        Some(b) => b,
        None => {
            return Err(WalletError::InvalidSeeds);
        },
    };
    if check_profile_address(&new_profile_info.key, &new_authority_info.key, program_id).is_none() {
        return Err(WalletError::InvalidSeeds);
    }
    let profile_data = load_profile(&profile_info.data)?;
    if !profile_data.recovery.same(&new_profile_info.key) {
        return Err(WalletError::Custom(KryptonError::NotAuthorizedToRecover));
    }
    if !verify_recovery_state(&profile_data) {
        return Err(WalletError::Custom(KryptonError::MissingGuardianSignatures));
    }
    Ok(bump)
}

/// Moves the whole balance of the recovered profile into the new profile and
/// zeroes the recovered profile's data.
pub fn process_recover_native_sol(
    program_id: &Key,
    profile_info: &mut Account,
    authority_info: &Account,
    new_profile_info: &mut Account,
    new_authority_info: &Account,
) -> (r: Result<(), WalletError>)
    ensures
        match recover_native_sol_error(
            *program_id,
            *old(profile_info),
            *authority_info,
            *old(new_profile_info),
            *new_authority_info,
        ) {
            Some(e) => r == Err::<(), WalletError>(e) && same_account(
                *old(profile_info),
                *final(profile_info),
            ) && same_account(*old(new_profile_info), *final(new_profile_info)),
            None => {
                &&& r is Ok
                &&& final(new_profile_info).lamports == old(new_profile_info).lamports + old(
                    profile_info,
                ).lamports
                &&& final(profile_info).lamports == 0
                &&& final(profile_info).data@ == Seq::new(
                    old(profile_info).data@.len(),
                    |i: int| 0u8,
                )
                &&& final(new_profile_info).data@ == old(new_profile_info).data@
                &&& final(profile_info).key == old(profile_info).key
                &&& final(new_profile_info).key == old(new_profile_info).key
                &&& final(profile_info).is_signer == old(profile_info).is_signer
                &&& final(profile_info).is_writable == old(profile_info).is_writable
                &&& final(new_profile_info).is_signer == old(new_profile_info).is_signer
                &&& final(new_profile_info).is_writable == old(new_profile_info).is_writable
            },
        },
{
    if !new_authority_info.is_signer {
        return Err(WalletError::Custom(KryptonError::NotSigner));
    }
    if !profile_info.is_writable || !new_profile_info.is_writable {
        return Err(WalletError::Custom(KryptonError::NotWriteable));
    }
    if profile_info.key.same(&new_profile_info.key) {
        return Err(WalletError::InvalidArgument);
    }
    check_recovery_gate(
        program_id,
        profile_info,
        authority_info,
        new_profile_info,
        new_authority_info,
    )?;
    let balance = profile_info.lamports;
    let total = match balance.checked_add(new_profile_info.lamports) {
        Some(t) => t,
        None => {
            return Err(WalletError::Custom(KryptonError::Overflow));
        },
    };
    new_profile_info.lamports = total;
    profile_info.lamports = 0;
    let ghost len = profile_info.data@.len();
    let mut i: usize = 0;
    while i < profile_info.data.len()
        invariant
            i <= profile_info.data@.len(),
            profile_info.data@.len() == len,
            forall|j: int| 0 <= j < i ==> profile_info.data@[j] == 0u8,
            profile_info.lamports == 0,
            profile_info.key == old(profile_info).key,
            profile_info.is_signer == old(profile_info).is_signer,
            profile_info.is_writable == old(profile_info).is_writable,
        decreases profile_info.data@.len() - i,
    {
        profile_info.data.set(i, 0u8);
        i = i + 1;
    }
    assert(profile_info.data@ =~= Seq::new(len, |i: int| 0u8));
    Ok(())
}

} // verus!
